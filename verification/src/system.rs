//! The upstream servers that the host is configured to use.
//!
//! The text of a resolver configuration file names one server per
//! `nameserver` line. Reading the file and parsing the addresses is left to
//! the caller; this module finds the entries and builds the server list.

use vstd::prelude::*;
use vstd::string::StrSliceExecFns;
use crate::address::{IpAddress, SocketAddress};
use crate::error::Error;
use crate::record::names_view;
use crate::upstream_server::UpstreamServer;

verus! {

/// The port that name servers listen on.
pub const DNS_PORT: u16 = 53;

/// The word that starts a line which names a server.
pub open spec fn keyword() -> Seq<char> {
    seq!['n', 'a', 'm', 'e', 's', 'e', 'r', 'v', 'e', 'r']
}

/// Whether `c` is white space.
pub open spec fn is_space(c: char) -> bool {
    let code = c as u32;
    ||| 0x09 <= code <= 0x0d
    ||| code == 0x20
    ||| code == 0x85
    ||| code == 0xa0
    ||| code == 0x1680
    ||| 0x2000 <= code <= 0x200a
    ||| code == 0x2028
    ||| code == 0x2029
    ||| code == 0x202f
    ||| code == 0x205f
    ||| code == 0x3000
}

/// The first position from `from` on, short of `end`, that holds no white
/// space; `end` where there is none.
pub open spec fn spaces_end(text: Seq<char>, from: int, end: int) -> int
    decreases end - from,
{
    if from < end && is_space(text[from]) {
        spaces_end(text, from + 1, end)
    } else {
        from
    }
}

/// The first position from `from` on, short of `end`, that holds white
/// space; `end` where there is none.
pub open spec fn word_end(text: Seq<char>, from: int, end: int) -> int
    decreases end - from,
{
    if from < end && !is_space(text[from]) {
        word_end(text, from + 1, end)
    } else {
        from
    }
}

/// The first position from `from` on that holds a line feed; the length of
/// the text where there is none.
pub open spec fn line_end(text: Seq<char>, from: int) -> int
    decreases text.len() - from,
{
    if from < text.len() && text[from] != '\n' {
        line_end(text, from + 1)
    } else {
        from
    }
}

/// Whether the word that starts at position `at`, short of `end`, is the
/// keyword and nothing more.
pub open spec fn keyword_at(text: Seq<char>, at: int, end: int) -> bool {
    &&& at + keyword().len() <= end
    &&& text.subrange(at, at + keyword().len()) == keyword()
    &&& word_end(text, at, end) == at + keyword().len()
}

/// The server named on the line that spans the positions from `start` to
/// `end`: where the first word of the line is the keyword, its second word.
pub open spec fn entry_on_line(text: Seq<char>, start: int, end: int) -> Option<Seq<char>> {
    let first = spaces_end(text, start, end);
    let second = spaces_end(text, word_end(text, first, end), end);
    if keyword_at(text, first, end) && second < end {
        Some(text.subrange(second, word_end(text, second, end)))
    } else {
        None
    }
}

/// The servers named on the lines that start at position `from` or later.
pub open spec fn entries_from(text: Seq<char>, from: int) -> Seq<Seq<char>>
    decreases text.len() - from,
{
    if from < 0 || from >= text.len() {
        Seq::empty()
    } else {
        proof {
            lemma_line_end_bounds(text, from);
        }
        let end = line_end(text, from);
        (match entry_on_line(text, from, end) {
            Some(entry) => seq![entry],
            None => Seq::empty(),
        }) + (if end < text.len() {
            entries_from(text, end + 1)
        } else {
            Seq::empty()
        })
    }
}

/// The servers that a resolver configuration names, in the order of its
/// lines, each as it is written.
pub open spec fn entries_of(text: Seq<char>) -> Seq<Seq<char>> {
    entries_from(text, 0)
}

/// A line ends at or after the position it is searched from, within the text.
pub proof fn lemma_line_end_bounds(text: Seq<char>, from: int)
    requires
        0 <= from <= text.len(),
    ensures
        from <= line_end(text, from) <= text.len(),
    decreases text.len() - from,
{
    if from < text.len() && text[from] != '\n' {
        lemma_line_end_bounds(text, from + 1);
    }
}

/// Whether `c` is white space.
pub fn is_whitespace(c: char) -> (space: bool)
    ensures
        space == is_space(c),
{
    let code = c as u32;
    (0x09 <= code && code <= 0x0d) || code == 0x20 || code == 0x85 || code == 0xa0 || code
        == 0x1680 || (0x2000 <= code && code <= 0x200a) || code == 0x2028 || code == 0x2029 || code
        == 0x202f || code == 0x205f || code == 0x3000
}

/// Finds where the line that holds position `from` ends.
fn find_line_end(text: &str, from: usize, len: usize) -> (end: usize)
    requires
        len == text@.len(),
        from <= len,
    ensures
        end == line_end(text@, from as int),
        from <= end <= len,
{
    let mut end = from;
    let mut more = end < len;
    while more
        invariant
            len == text@.len(),
            from <= end <= len,
            more ==> end < len,
            line_end(text@, end as int) == line_end(text@, from as int),
            !more ==> end == line_end(text@, end as int),
        decreases len - end + (if more { 1int } else { 0int }),
    {
        if text.get_char(end) == '\n' {
            more = false;
        } else {
            end += 1;
            more = end < len;
        }
    }
    end
}

/// Skips white space from `from` on, short of `end`.
fn skip_spaces(text: &str, from: usize, end: usize) -> (at: usize)
    requires
        from <= end <= text@.len(),
    ensures
        at == spaces_end(text@, from as int, end as int),
        from <= at <= end,
{
    let mut at = from;
    let mut more = at < end;
    while more
        invariant
            from <= at <= end <= text@.len(),
            more ==> at < end,
            spaces_end(text@, at as int, end as int) == spaces_end(text@, from as int, end as int),
            !more ==> at == spaces_end(text@, at as int, end as int),
        decreases end - at + (if more { 1int } else { 0int }),
    {
        if is_whitespace(text.get_char(at)) {
            at += 1;
            more = at < end;
        } else {
            more = false;
        }
    }
    at
}

/// Skips a word from `from` on, short of `end`.
fn skip_word(text: &str, from: usize, end: usize) -> (at: usize)
    requires
        from <= end <= text@.len(),
    ensures
        at == word_end(text@, from as int, end as int),
        from <= at <= end,
{
    let mut at = from;
    let mut more = at < end;
    while more
        invariant
            from <= at <= end <= text@.len(),
            more ==> at < end,
            word_end(text@, at as int, end as int) == word_end(text@, from as int, end as int),
            !more ==> at == word_end(text@, at as int, end as int),
        decreases end - at + (if more { 1int } else { 0int }),
    {
        if is_whitespace(text.get_char(at)) {
            more = false;
        } else {
            at += 1;
            more = at < end;
        }
    }
    at
}

/// A word ends at or after the position it is searched from, short of the
/// limit.
proof fn lemma_word_end_bounds(text: Seq<char>, from: int, end: int)
    requires
        from <= end,
    ensures
        from <= word_end(text, from, end) <= end,
    decreases end - from,
{
    if from < end && !is_space(text[from]) {
        lemma_word_end_bounds(text, from + 1, end);
    }
}

/// A word that starts with a run of characters other than white space ends
/// where the word after that run ends.
proof fn lemma_word_end_after_run(text: Seq<char>, from: int, upto: int, end: int)
    requires
        from <= upto <= end,
        forall|j: int| from <= j < upto ==> !is_space(#[trigger] text[j]),
    ensures
        word_end(text, from, end) == word_end(text, upto, end),
    decreases upto - from,
{
    if from < upto {
        lemma_word_end_after_run(text, from + 1, upto, end);
    }
}

/// Whether the word that starts at position `at`, short of `end`, is the
/// keyword and nothing more.
fn has_keyword(text: &str, at: usize, end: usize) -> (found: bool)
    requires
        at <= end <= text@.len(),
    ensures
        found == keyword_at(text@, at as int, end as int),
{
    let word: [char; 10] = ['n', 'a', 'm', 'e', 's', 'e', 'r', 'v', 'e', 'r'];
    assert(word@ =~= keyword());
    if end - at < 10 {
        return false;
    }
    let mut i: usize = 0;
    while i < 10
        invariant
            i <= 10,
            at + 10 <= end <= text@.len(),
            word@ == keyword(),
            forall|j: int| 0 <= j < i ==> text@[at + j] == keyword()[j],
        decreases 10 - i,
    {
        if text.get_char(at + i) != word[i] {
            assert(text@.subrange(at as int, at + 10)[i as int] != keyword()[i as int]);
            return false;
        }
        i += 1;
    }
    assert(text@.subrange(at as int, at + 10) =~= keyword());
    let alone = at + 10 == end || is_whitespace(text.get_char(at + 10));
    proof {
        assert forall|j: int| at <= j < at + 10 implies !is_space(#[trigger] text@[j]) by {
            assert(text@[j] == keyword()[j - at]);
        }
        lemma_word_end_after_run(text@, at as int, at + 10, end as int);
        if !alone {
            lemma_word_end_bounds(text@, at + 11, end as int);
        }
    }
    alone
}

/// Finds the servers that a resolver configuration names.
///
/// A line names a server if its first word is `nameserver` and it has a
/// second word; that word is the entry. White space before the first word
/// does not count, and a first word that merely starts with `nameserver`
/// names no server. The entries
/// come in the order of their lines, as they are written: whether one of
/// them is an address is for the caller to find out.
pub fn nameserver_entries(text: &str) -> (entries: Vec<String>)
    ensures
        names_view(entries@) == entries_of(text@),
{
    let len = text.unicode_len();
    let mut entries: Vec<String> = Vec::new();
    let mut start: usize = 0;
    assert(names_view(entries@) + entries_from(text@, 0) =~= entries_of(text@));
    while start < len
        invariant
            len == text@.len(),
            names_view(entries@) + entries_from(text@, start as int) == entries_of(text@),
        decreases len - start,
    {
        let end = find_line_end(text, start, len);
        let first = skip_spaces(text, start, end);
        let ghost before = names_view(entries@);
        if has_keyword(text, first, end) {
            let second = skip_spaces(text, skip_word(text, first, end), end);
            if second < end {
                let last = skip_word(text, second, end);
                let entry = text.substring_char(second, last).to_owned();
                proof {
                    assert(names_view(entries@.push(entry)) =~= before.push(entry@));
                }
                entries.push(entry);
            }
        }
        proof {
            let rest = if end < len {
                entries_from(text@, end + 1)
            } else {
                Seq::<Seq<char>>::empty()
            };
            match entry_on_line(text@, start as int, end as int) {
                Some(entry) => {
                    assert(before.push(entry) + rest =~= before + (seq![entry] + rest));
                },
                None => {
                    assert(before + rest =~= before + (Seq::<Seq<char>>::empty() + rest));
                },
            }
        }
        if end == len {
            start = len;
        } else {
            start = end + 1;
        }
    }
    assert(names_view(entries@) + Seq::<Seq<char>>::empty() =~= names_view(entries@));
    entries
}

/// The upstream servers at `addresses`, each on port 53, in the same order.
///
/// Fails with [`Error::NoUpstreamServers`] where there is no address.
pub fn default_resolvers(addresses: &Vec<IpAddress>) -> (servers: Result<
    Vec<UpstreamServer>,
    Error,
>)
    ensures
        servers is Ok <==> addresses@.len() > 0,
        servers matches Ok(list) ==> list@ == addresses@.map_values(
            |ip: IpAddress| UpstreamServer { addr: SocketAddress { ip, port: DNS_PORT } },
        ),
        servers matches Err(e) ==> e == Error::NoUpstreamServers,
{
    let mut list: Vec<UpstreamServer> = Vec::new();
    let mut i: usize = 0;
    while i < addresses.len()
        invariant
            i <= addresses@.len(),
            list@ == addresses@.take(i as int).map_values(
                |ip: IpAddress| UpstreamServer { addr: SocketAddress { ip, port: DNS_PORT } },
            ),
        decreases addresses@.len() - i,
    {
        list.push(UpstreamServer::new(SocketAddress::new(addresses[i], DNS_PORT)));
        i += 1;
        assert(list@ =~= addresses@.take(i as int).map_values(
            |ip: IpAddress| UpstreamServer { addr: SocketAddress { ip, port: DNS_PORT } },
        ));
    }
    assert(addresses@.take(i as int) =~= addresses@);
    if list.len() == 0 {
        Err(Error::NoUpstreamServers)
    } else {
        Ok(list)
    }
}

} // verus!
