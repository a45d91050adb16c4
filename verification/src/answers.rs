//! Typed results read from the answer section of a validated response.

use vstd::prelude::*;
use vstd::slice::slice_to_vec;
use crate::address::IpAddress;
use crate::codec::{class_code, codec_class_code, codec_type_code, shuffle, type_code};
use crate::error::Error;
use crate::message::Message;
use crate::rdata::{decode_txt, text_of};
use crate::record::{RecordData, RecordDataView, RecordView, records_view};

verus! {

/// A record class together with a record type, by their codes.
#[derive(Clone, Copy, Debug, PartialEq, Eq, Structural)]
pub struct RecordKind {
    pub class: u16,
    pub rtype: u16,
}

/// The octets of the address that `record` carries, where it carries one of
/// `width` octets.
pub open spec fn address_octets(record: RecordView, width: nat) -> Option<Seq<u8>> {
    match record.data {
        RecordDataView::Address(octets) => if octets.len() == width {
            Some(octets)
        } else {
            None
        },
        RecordDataView::Bytes(_) => None,
    }
}

/// The raw payload of `record`, where it has one.
pub open spec fn raw_payload(record: RecordView) -> Option<Seq<u8>> {
    match record.data {
        RecordDataView::Address(_) => None,
        RecordDataView::Bytes(bytes) => Some(bytes),
    }
}

/// The raw payload of `record`, where it has one and is of the given kind.
pub open spec fn raw_payload_of_kind(record: RecordView, kind: RecordKind) -> Option<Seq<u8>> {
    if record.class == kind.class && record.rtype == kind.rtype {
        raw_payload(record)
    } else {
        None
    }
}

/// The octets of the addresses of `width` octets among `answers`, in order.
pub open spec fn addresses_among(answers: Seq<RecordView>, width: nat) -> Seq<Seq<u8>> {
    answers.filter_map(|record: RecordView| address_octets(record, width))
}

/// The raw payloads of the records of `kind` among `answers`, in order.
pub open spec fn payloads_among(answers: Seq<RecordView>, kind: RecordKind) -> Seq<Seq<u8>> {
    answers.filter_map(|record: RecordView| raw_payload_of_kind(record, kind))
}

/// The raw payloads among `answers`, in order.
pub open spec fn raw_payloads(answers: Seq<RecordView>) -> Seq<Seq<u8>> {
    answers.filter_map(|record: RecordView| raw_payload(record))
}

/// The texts that the raw payloads among `answers` encode, in order, or
/// `None` where one of them is cut short.
pub open spec fn texts_among(answers: Seq<RecordView>) -> Option<Seq<Seq<u8>>> {
    let payloads = raw_payloads(answers);
    if forall|i: int| 0 <= i < payloads.len() ==> text_of(#[trigger] payloads[i]) is Some {
        Some(payloads.map_values(|payload: Seq<u8>| text_of(payload)->0))
    } else {
        None
    }
}

/// The values of a list of byte strings.
pub open spec fn byte_strings(list: Seq<Vec<u8>>) -> Seq<Seq<u8>> {
    list.map_values(|bytes: Vec<u8>| bytes@)
}

/// The octets of a list of IPv4 addresses.
pub open spec fn octets_v4(list: Seq<[u8; 4]>) -> Seq<Seq<u8>> {
    list.map_values(|octets: [u8; 4]| octets@)
}

/// The octets of a list of IPv6 addresses.
pub open spec fn octets_v6(list: Seq<[u8; 16]>) -> Seq<Seq<u8>> {
    list.map_values(|octets: [u8; 16]| octets@)
}

impl RecordKind {
    /// The kind that a class name and a type name denote, such as `IN` and
    /// `MX`. Fails with [`Error::Codec`] where the codec knows no class or no
    /// type of that name.
    pub fn parse(class: &str, rtype: &str) -> (kind: Result<RecordKind, Error>)
        ensures
            kind is Ok <==> class_code(class@) is Some && type_code(rtype@) is Some,
            kind matches Ok(k) ==> Some(k.class) == class_code(class@) && Some(k.rtype)
                == type_code(rtype@),
            kind matches Err(e) ==> e == Error::Codec,
    {
        match (codec_class_code(class), codec_type_code(rtype)) {
            (Some(class), Some(rtype)) => Ok(RecordKind { class, rtype }),
            _ => Err(Error::Codec),
        }
    }
}

/// The IPv4 addresses in the answer section, in wire order. Records that
/// carry no IPv4 address are passed over.
pub fn addresses_v4(response: &Message) -> (list: Vec<[u8; 4]>)
    ensures
        octets_v4(list@) == addresses_among(response@.answers, 4),
{
    let answers = response.answers();
    let ghost all = records_view(answers@);
    let ghost pick = |record: RecordView| address_octets(record, 4);
    let mut list: Vec<[u8; 4]> = Vec::new();
    let mut i: usize = 0;
    while i < answers.len()
        invariant
            i <= answers@.len(),
            all == records_view(answers@),
            pick == |record: RecordView| address_octets(record, 4),
            octets_v4(list@) == all.take(i as int).filter_map(pick),
        decreases answers@.len() - i,
    {
        proof {
            all.lemma_filter_map_take_succ(pick, i as int);
        }
        match &answers[i].data {
            RecordData::Address(octets) => {
                if octets.len() == 4 {
                    let address: [u8; 4] = [octets[0], octets[1], octets[2], octets[3]];
                    assert(address@ =~= octets@);
                    list.push(address);
                }
            },
            RecordData::Bytes(_) => {},
        }
        i += 1;
        assert(octets_v4(list@) =~= all.take(i as int).filter_map(pick));
    }
    assert(all.take(i as int) =~= all);
    list
}

/// The IPv6 addresses in the answer section, in wire order. Records that
/// carry no IPv6 address are passed over.
pub fn addresses_v6(response: &Message) -> (list: Vec<[u8; 16]>)
    ensures
        octets_v6(list@) == addresses_among(response@.answers, 16),
{
    let answers = response.answers();
    let ghost all = records_view(answers@);
    let ghost pick = |record: RecordView| address_octets(record, 16);
    let mut list: Vec<[u8; 16]> = Vec::new();
    let mut i: usize = 0;
    while i < answers.len()
        invariant
            i <= answers@.len(),
            all == records_view(answers@),
            pick == |record: RecordView| address_octets(record, 16),
            octets_v6(list@) == all.take(i as int).filter_map(pick),
        decreases answers@.len() - i,
    {
        proof {
            all.lemma_filter_map_take_succ(pick, i as int);
        }
        match &answers[i].data {
            RecordData::Address(octets) => {
                if octets.len() == 16 {
                    let address: [u8; 16] = [
                        octets[0],
                        octets[1],
                        octets[2],
                        octets[3],
                        octets[4],
                        octets[5],
                        octets[6],
                        octets[7],
                        octets[8],
                        octets[9],
                        octets[10],
                        octets[11],
                        octets[12],
                        octets[13],
                        octets[14],
                        octets[15],
                    ];
                    assert(address@ =~= octets@);
                    list.push(address);
                }
            },
            RecordData::Bytes(_) => {},
        }
        i += 1;
        assert(octets_v6(list@) =~= all.take(i as int).filter_map(pick));
    }
    assert(all.take(i as int) =~= all);
    list
}

/// The IPv4 addresses followed by the IPv6 addresses, as one list.
pub fn addresses(v4: &Vec<[u8; 4]>, v6: &Vec<[u8; 16]>) -> (list: Vec<IpAddress>)
    ensures
        list@ == v4@.map_values(|octets: [u8; 4]| IpAddress::V4(octets)) + v6@.map_values(
            |octets: [u8; 16]| IpAddress::V6(octets),
        ),
{
    let mut list: Vec<IpAddress> = Vec::new();
    let mut i: usize = 0;
    while i < v4.len()
        invariant
            i <= v4@.len(),
            list@ == v4@.take(i as int).map_values(|octets: [u8; 4]| IpAddress::V4(octets)),
        decreases v4@.len() - i,
    {
        list.push(IpAddress::V4(v4[i]));
        i += 1;
        assert(list@ =~= v4@.take(i as int).map_values(|octets: [u8; 4]| IpAddress::V4(octets)));
    }
    assert(v4@.take(i as int) =~= v4@);
    let mut j: usize = 0;
    while j < v6.len()
        invariant
            j <= v6@.len(),
            list@ == v4@.map_values(|octets: [u8; 4]| IpAddress::V4(octets)) + v6@.take(
                j as int,
            ).map_values(|octets: [u8; 16]| IpAddress::V6(octets)),
        decreases v6@.len() - j,
    {
        list.push(IpAddress::V6(v6[j]));
        j += 1;
        assert(list@ =~= v4@.map_values(|octets: [u8; 4]| IpAddress::V4(octets)) + v6@.take(
            j as int,
        ).map_values(|octets: [u8; 16]| IpAddress::V6(octets)));
    }
    assert(v6@.take(j as int) =~= v6@);
    list
}

/// Whether `list` holds the IPv4 addresses with the octets `v4`, in order,
/// followed by the IPv6 addresses with the octets `v6`, in order, and
/// nothing else.
pub open spec fn is_union(list: Seq<IpAddress>, v4: Seq<Seq<u8>>, v6: Seq<Seq<u8>>) -> bool {
    &&& list.len() == v4.len() + v6.len()
    &&& forall|i: int|
        0 <= i < v4.len() ==> (#[trigger] list[i]) is V4 && list[i].octets() == v4[i]
    &&& forall|j: int|
        0 <= j < v6.len() ==> (#[trigger] list[v4.len() + j]) is V6 && list[v4.len() + j].octets()
            == v6[j]
}

/// All addresses of a name, from the outcomes of the lookup of its `A`
/// records and of the lookup of its `AAAA` records.
///
/// Either lookup failing fails the call, and nothing of the other lookup is
/// handed out; where both failed, the error is that of the `A` lookup.
/// Otherwise the IPv4 addresses of the first answer come first, then the
/// IPv6 addresses of the second, each in wire order.
pub fn addresses_of(a: Result<Message, Error>, aaaa: Result<Message, Error>) -> (union: Result<
    Vec<IpAddress>,
    Error,
>)
    ensures
        match (a, aaaa) {
            (Err(e), _) => union matches Err(error) && error == e,
            (Ok(_), Err(e)) => union matches Err(error) && error == e,
            (Ok(first), Ok(second)) => union matches Ok(list) && is_union(
                list@,
                addresses_among(first@.answers, 4),
                addresses_among(second@.answers, 16),
            ),
        },
{
    match a {
        Err(e) => Err(e),
        Ok(first) => match aaaa {
            Err(e) => Err(e),
            Ok(second) => {
                let v4 = addresses_v4(&first);
                let v6 = addresses_v6(&second);
                let list = addresses(&v4, &v6);
                proof {
                    let from_a = addresses_among(first@.answers, 4);
                    let from_aaaa = addresses_among(second@.answers, 16);
                    assert(from_a.len() == v4@.len());
                    assert(from_aaaa.len() == v6@.len());
                    assert forall|i: int| 0 <= i < from_a.len() implies
                        (#[trigger] list@[i]) is V4 && list@[i].octets() == from_a[i]
                    by {
                        assert(list@[i] == IpAddress::V4(v4@[i]));
                        assert(octets_v4(v4@)[i] == v4@[i]@);
                    }
                    assert forall|j: int| 0 <= j < from_aaaa.len() implies
                        (#[trigger] list@[from_a.len() + j]) is V6
                        && list@[from_a.len() + j].octets() == from_aaaa[j]
                    by {
                        assert(list@[from_a.len() + j] == IpAddress::V6(v6@[j]));
                        assert(octets_v6(v6@)[j] == v6@[j]@);
                    }
                }
                Ok(list)
            },
        },
    }
}

/// The raw payloads of the answer records of `kind`, in wire order and
/// unmodified. Records of another class or type, and records that carry an
/// address, are passed over.
pub fn records_data(response: &Message, kind: &RecordKind) -> (list: Vec<Vec<u8>>)
    ensures
        byte_strings(list@) == payloads_among(response@.answers, *kind),
{
    let answers = response.answers();
    let ghost all = records_view(answers@);
    let ghost pick = |record: RecordView| raw_payload_of_kind(record, *kind);
    let mut list: Vec<Vec<u8>> = Vec::new();
    let mut i: usize = 0;
    while i < answers.len()
        invariant
            i <= answers@.len(),
            all == records_view(answers@),
            pick == |record: RecordView| raw_payload_of_kind(record, *kind),
            byte_strings(list@) == all.take(i as int).filter_map(pick),
        decreases answers@.len() - i,
    {
        proof {
            all.lemma_filter_map_take_succ(pick, i as int);
        }
        let record = &answers[i];
        if record.class == kind.class && record.rtype == kind.rtype {
            match &record.data {
                RecordData::Bytes(bytes) => {
                    list.push(slice_to_vec(bytes.as_slice()));
                },
                RecordData::Address(_) => {},
            }
        }
        i += 1;
        assert(byte_strings(list@) =~= all.take(i as int).filter_map(pick));
    }
    assert(all.take(i as int) =~= all);
    list
}

/// The texts of the answer records, in wire order: each raw payload decoded
/// as a sequence of character strings and concatenated. Records that carry
/// an address are passed over. One payload that is cut short fails the whole
/// call with [`Error::InvalidRecord`].
pub fn texts(response: &Message) -> (list: Result<Vec<Vec<u8>>, Error>)
    ensures
        list is Ok <==> texts_among(response@.answers) is Some,
        list matches Ok(texts) ==> Some(byte_strings(texts@)) == texts_among(response@.answers),
        list matches Err(e) ==> e == Error::InvalidRecord,
{
    let answers = response.answers();
    let ghost all = records_view(answers@);
    let ghost pick = |record: RecordView| raw_payload(record);
    let ghost decode = |payload: Seq<u8>| text_of(payload)->0;
    let mut list: Vec<Vec<u8>> = Vec::new();
    let mut i: usize = 0;
    while i < answers.len()
        invariant
            i <= answers@.len(),
            all == records_view(answers@),
            all == response@.answers,
            pick == |record: RecordView| raw_payload(record),
            decode == |payload: Seq<u8>| text_of(payload)->0,
            forall|k: int|
                0 <= k < all.take(i as int).filter_map(pick).len() ==> text_of(
                    #[trigger] all.take(i as int).filter_map(pick)[k],
                ) is Some,
            byte_strings(list@) == all.take(i as int).filter_map(pick).map_values(decode),
        decreases answers@.len() - i,
    {
        proof {
            all.lemma_filter_map_take_succ(pick, i as int);
        }
        let ghost before = all.take(i as int).filter_map(pick);
        match &answers[i].data {
            RecordData::Bytes(bytes) => {
                match decode_txt(bytes.as_slice()) {
                    Ok(text) => {
                        proof {
                            let upto = all.take(i + 1).filter_map(pick);
                            assert(upto =~= before.push(bytes@));
                            assert(upto.map_values(decode) =~= before.map_values(decode).push(
                                text@,
                            ));
                            assert(byte_strings(list@.push(text)) =~= byte_strings(list@).push(
                                text@,
                            ));
                        }
                        list.push(text);
                    },
                    Err(e) => {
                        proof {
                            let upto = all.take(i + 1).filter_map(pick);
                            assert(upto.last() == bytes@);
                            lemma_payloads_prefix(all, i + 1, upto.len() - 1);
                        }
                        return Err(e);
                    },
                }
            },
            RecordData::Address(_) => {},
        }
        i += 1;
        assert(byte_strings(list@) =~= all.take(i as int).filter_map(pick).map_values(decode));
    }
    assert(all.take(i as int) =~= all);
    Ok(list)
}

/// The payloads among the first records are the first of the payloads among
/// all of them.
proof fn lemma_payloads_prefix(all: Seq<RecordView>, count: int, k: int)
    requires
        0 <= count <= all.len(),
        0 <= k < raw_payloads(all.take(count)).len(),
    ensures
        k < raw_payloads(all).len(),
        raw_payloads(all)[k] == raw_payloads(all.take(count))[k],
    decreases all.len() - count,
{
    if count < all.len() {
        all.lemma_filter_map_take_succ(|record: RecordView| raw_payload(record), count);
        lemma_payloads_prefix(all, count + 1, k);
    } else {
        assert(all.take(count) =~= all);
    }
}

/// The same items in an order drawn at random: a presentation policy that
/// spreads load over records that are equally valid.
pub fn shuffled<T>(items: Vec<T>) -> (mixed: Vec<T>)
    ensures
        mixed@.to_multiset() == items@.to_multiset(),
{
    let mut mixed = items;
    shuffle(&mut mixed);
    mixed
}

} // verus!
