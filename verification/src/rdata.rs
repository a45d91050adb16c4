//! Decoding of record payloads that are made of length-prefixed chunks, and
//! the names under which addresses are looked up in reverse.

use vstd::prelude::*;
use crate::address::IpAddress;
use crate::error::Error;

verus! {

/// The byte `.` that separates the labels of a name.
pub const DOT: u8 = 46;

/// The concatenation of the chunks that `data` is made of, each chunk being
/// one length byte followed by that many bytes; `None` where the last chunk
/// announces more bytes than remain.
pub open spec fn text_of(data: Seq<u8>) -> Option<Seq<u8>>
    decreases data.len(),
{
    if data.len() == 0 {
        Some(Seq::empty())
    } else if data.len() - 1 < data[0] {
        None
    } else {
        match text_of(data.skip(1 + data[0])) {
            Some(rest) => Some(data.subrange(1, 1 + data[0]) + rest),
            None => None,
        }
    }
}

/// Two parts of a name with a dot between them, where neither is empty.
pub open spec fn joined(head: Seq<u8>, tail: Seq<u8>) -> Seq<u8> {
    if head.len() == 0 {
        tail
    } else if tail.len() == 0 {
        head
    } else {
        head + seq![DOT] + tail
    }
}

/// The non-empty chunks of `data`, in order, with dots between them; `None`
/// where the last chunk announces more bytes than remain.
pub open spec fn labels_of(data: Seq<u8>) -> Option<Seq<u8>>
    decreases data.len(),
{
    if data.len() == 0 {
        Some(Seq::empty())
    } else if data.len() - 1 < data[0] {
        None
    } else {
        match labels_of(data.skip(1 + data[0])) {
            Some(rest) => Some(joined(data.subrange(1, 1 + data[0]), rest)),
            None => None,
        }
    }
}

/// The dotted name that the labels in `data` spell; a name without labels is
/// the root, written `.`.
pub open spec fn name_of(data: Seq<u8>) -> Option<Seq<u8>> {
    match labels_of(data) {
        Some(labels) => Some(
            if labels.len() == 0 {
                seq![DOT]
            } else {
                labels
            },
        ),
        None => None,
    }
}

/// Putting parts of a name together gives the same name however the parts
/// are grouped.
pub proof fn lemma_joined_associative(a: Seq<u8>, b: Seq<u8>, c: Seq<u8>)
    ensures
        joined(joined(a, b), c) == joined(a, joined(b, c)),
{
    assert(joined(joined(a, b), c) =~= joined(a, joined(b, c)));
}

/// What one more chunk at the front of `data` contributes.
proof fn lemma_chunk_at(data: Seq<u8>, at: int)
    requires
        0 <= at < data.len(),
        data.len() - at - 1 >= data[at],
    ensures
        data.skip(at).subrange(1, 1 + data[at]) == data.subrange(at + 1, at + 1 + data[at]),
        data.skip(at).skip(1 + data[at]) == data.skip(at + 1 + data[at]),
        data.skip(at)[0] == data[at],
{
    assert(data.skip(at).subrange(1, 1 + data[at]) =~= data.subrange(at + 1, at + 1 + data[at]));
    assert(data.skip(at).skip(1 + data[at]) =~= data.skip(at + 1 + data[at]));
}

/// Appends `data[from..to]` to `out`.
fn append_range(out: &mut Vec<u8>, data: &[u8], from: usize, to: usize)
    requires
        from <= to <= data@.len(),
    ensures
        final(out)@ == old(out)@ + data@.subrange(from as int, to as int),
{
    let mut i: usize = from;
    while i < to
        invariant
            from <= i <= to <= data@.len(),
            out@ == old(out)@ + data@.subrange(from as int, i as int),
        decreases to - i,
    {
        out.push(data[i]);
        i += 1;
        assert(out@ =~= old(out)@ + data@.subrange(from as int, i as int));
    }
}

/// Decodes the character strings of a `TXT` payload into one byte string.
///
/// The payload is a sequence of chunks, each a length byte followed by that
/// many bytes; the chunks are concatenated without boundaries. A chunk that
/// announces more bytes than remain makes the payload invalid.
pub fn decode_txt(data: &[u8]) -> (decoded: Result<Vec<u8>, Error>)
    ensures
        decoded is Ok <==> text_of(data@) is Some,
        decoded matches Ok(text) ==> Some(text@) == text_of(data@),
        decoded matches Err(e) ==> e == Error::InvalidRecord,
{
    let mut text: Vec<u8> = Vec::new();
    let mut at: usize = 0;
    proof {
        assert(data@.skip(0) =~= data@);
    }
    while at < data.len()
        invariant
            at <= data@.len(),
            text_of(data@) is Some <==> text_of(data@.skip(at as int)) is Some,
            text_of(data@) matches Some(whole) ==> whole == text@ + text_of(
                data@.skip(at as int),
            )->0,
        decreases data@.len() - at,
    {
        let len = data[at] as usize;
        if data.len() - at - 1 < len {
            return Err(Error::InvalidRecord);
        }
        proof {
            lemma_chunk_at(data@, at as int);
            let rest = text_of(data@.skip(at + 1 + len));
            if rest is Some {
                assert(text@ + (data@.subrange(at + 1, at + 1 + len) + rest->0) =~= (text@
                    + data@.subrange(at + 1, at + 1 + len)) + rest->0);
            }
        }
        append_range(&mut text, data, at + 1, at + 1 + len);
        at = at + 1 + len;
    }
    proof {
        assert(text@ + Seq::<u8>::empty() =~= text@);
    }
    Ok(text)
}

/// Decodes the labels of a `PTR` payload into a dotted name.
///
/// The payload is read as a sequence of chunks, each a length byte followed
/// by that many bytes. The non-empty chunks are the labels, written with dots
/// between them; a payload without labels is the root, `.`. A chunk that
/// announces more bytes than remain makes the payload invalid.
pub fn decode_name(data: &[u8]) -> (decoded: Result<Vec<u8>, Error>)
    ensures
        decoded is Ok <==> name_of(data@) is Some,
        decoded matches Ok(name) ==> Some(name@) == name_of(data@),
        decoded matches Err(e) ==> e == Error::InvalidRecord,
{
    let mut name: Vec<u8> = Vec::new();
    let mut at: usize = 0;
    proof {
        assert(data@.skip(0) =~= data@);
    }
    while at < data.len()
        invariant
            at <= data@.len(),
            labels_of(data@) is Some <==> labels_of(data@.skip(at as int)) is Some,
            labels_of(data@) matches Some(whole) ==> whole == joined(
                name@,
                labels_of(data@.skip(at as int))->0,
            ),
        decreases data@.len() - at,
    {
        let len = data[at] as usize;
        if data.len() - at - 1 < len {
            return Err(Error::InvalidRecord);
        }
        proof {
            lemma_chunk_at(data@, at as int);
            let rest = labels_of(data@.skip(at + 1 + len));
            if rest is Some {
                lemma_joined_associative(name@, data@.subrange(at + 1, at + 1 + len), rest->0);
            }
        }
        let ghost before = name@;
        if len != 0 && name.len() != 0 {
            name.push(DOT);
        }
        append_range(&mut name, data, at + 1, at + 1 + len);
        proof {
            assert(name@ =~= joined(before, data@.subrange(at + 1, at + 1 + len)));
        }
        at = at + 1 + len;
    }
    if name.len() == 0 {
        name.push(DOT);
    }
    Ok(name)
}

/// The decimal digits of `n`, without leading zeros.
pub open spec fn decimal(n: u8) -> Seq<u8> {
    if n < 10 {
        seq![(48 + n) as u8]
    } else if n < 100 {
        seq![(48 + n / 10) as u8, (48 + n % 10) as u8]
    } else {
        seq![(48 + n / 100) as u8, (48 + (n / 10) % 10) as u8, (48 + n % 10) as u8]
    }
}

/// The lower-case hexadecimal digit of a value below sixteen.
pub open spec fn hex_digit(nibble: u8) -> u8 {
    if nibble < 10 {
        (48 + nibble) as u8
    } else {
        (87 + nibble) as u8
    }
}

/// The bytes of `.in-addr.arpa`.
pub open spec fn in_addr_arpa() -> Seq<u8> {
    seq![46u8, 105, 110, 45, 97, 100, 100, 114, 46, 97, 114, 112, 97]
}

/// The bytes of `ip6.arpa`.
pub open spec fn ip6_arpa() -> Seq<u8> {
    seq![105u8, 112, 54, 46, 97, 114, 112, 97]
}

/// The name under which the IPv4 address with these four octets is looked
/// up in reverse: the octets in decimal, last octet first, under
/// `in-addr.arpa`.
pub open spec fn reverse_name_v4(octets: Seq<u8>) -> Seq<u8> {
    decimal(octets[3]) + seq![DOT] + decimal(octets[2]) + seq![DOT] + decimal(octets[1]) + seq![
        DOT,
    ] + decimal(octets[0]) + in_addr_arpa()
}

/// The `index`-th of the thirty-two nibbles of an IPv6 address, counted from
/// the least significant one.
pub open spec fn nibble(octets: Seq<u8>, index: int) -> u8 {
    let octet = octets[15 - index / 2];
    if index % 2 == 0 {
        octet % 16
    } else {
        octet / 16
    }
}

/// The name under which the IPv6 address with these sixteen octets is looked
/// up in reverse: its nibbles as hexadecimal digits, least significant
/// first, each followed by a dot, under `ip6.arpa`.
pub open spec fn reverse_name_v6(octets: Seq<u8>) -> Seq<u8> {
    Seq::new(
        64,
        |i: int|
            if i % 2 == 0 {
                hex_digit(nibble(octets, i / 2))
            } else {
                DOT
            },
    ) + ip6_arpa()
}

/// The name under which `ip` is looked up in reverse.
pub open spec fn reverse_name_of(ip: IpAddress) -> Seq<u8> {
    match ip {
        IpAddress::V4(octets) => reverse_name_v4(octets@),
        IpAddress::V6(octets) => reverse_name_v6(octets@),
    }
}

/// Appends the decimal digits of `n` to `out`.
fn push_decimal(out: &mut Vec<u8>, n: u8)
    ensures
        final(out)@ == old(out)@ + decimal(n),
{
    if n >= 100 {
        out.push(48 + n / 100);
    }
    if n >= 10 {
        out.push(48 + (n / 10) % 10);
    }
    out.push(48 + n % 10);
    proof {
        assert(out@ =~= old(out)@ + decimal(n));
    }
}

/// The hexadecimal digit of a value below sixteen.
fn hex_of(nibble: u8) -> (digit: u8)
    requires
        nibble < 16,
    ensures
        digit == hex_digit(nibble),
{
    if nibble < 10 {
        48 + nibble
    } else {
        87 + nibble
    }
}

/// Builds the name under which `ip` is looked up in reverse.
///
/// For `192.0.2.1` this is `1.2.0.192.in-addr.arpa`; for an IPv6 address it
/// is the thirty-two nibbles, least significant first, under `ip6.arpa`.
pub fn reverse_name(ip: &IpAddress) -> (name: Vec<u8>)
    ensures
        name@ == reverse_name_of(*ip),
{
    let mut name: Vec<u8> = Vec::new();
    match ip {
        IpAddress::V4(octets) => {
            push_decimal(&mut name, octets[3]);
            name.push(DOT);
            push_decimal(&mut name, octets[2]);
            name.push(DOT);
            push_decimal(&mut name, octets[1]);
            name.push(DOT);
            push_decimal(&mut name, octets[0]);
            let mut suffix = vec![46u8, 105, 110, 45, 97, 100, 100, 114, 46, 97, 114, 112, 97];
            name.append(&mut suffix);
            proof {
                assert(name@ =~= reverse_name_v4(octets@));
            }
        },
        IpAddress::V6(octets) => {
            let mut i: usize = 0;
            while i < 16
                invariant
                    i <= 16,
                    name@.len() == 4 * i,
                    forall|j: int|
                        0 <= j < 4 * i ==> name@[j] == reverse_name_v6(octets@)[j],
                decreases 16 - i,
            {
                let octet = octets[15 - i];
                name.push(hex_of(octet % 16));
                name.push(DOT);
                name.push(hex_of(octet / 16));
                name.push(DOT);
                i += 1;
            }
            let mut suffix = vec![105u8, 112, 54, 46, 97, 114, 112, 97];
            name.append(&mut suffix);
            proof {
                assert(name@ =~= reverse_name_v6(octets@));
            }
        },
    }
    name
}

} // verus!
