//! The boundary to code that is not verified.
//!
//! The executable functions of this module are believed, not proved. Each
//! makes a call into the `dnssector` crate, the `rand` crate or the standard
//! library and states what the source or the documentation of the callee
//! shows. The functions without a body name what such a call returns; the
//! other specification functions spell out what the contracts speak of.

use vstd::prelude::*;
use dnssector::{DNSIterable, RdataIterable, TypedIterable};
use vstd::utf8::{decode_utf8, valid_utf8};
use std::time::Duration;
use crate::record::{
    Question, QuestionView, Record, RecordData, RecordView, question_view, records_view,
};

verus! {

/// Whether `DNSSector::parse` accepts `bytes` as a DNS message.
pub uninterp spec fn parses(bytes: Seq<u8>) -> bool;

/// The question that `ParsedPacket::question` reports for a message that
/// parses.
pub uninterp spec fn parsed_question(bytes: Seq<u8>) -> Option<QuestionView>;

/// The answer records that `ParsedPacket::into_iter_answer` walks, in order,
/// for a message that parses.
pub uninterp spec fn parsed_answers(bytes: Seq<u8>) -> Seq<RecordView>;

/// The code that `Type::from_string` gives the record type called `name`.
pub uninterp spec fn type_code(name: Seq<char>) -> Option<u16>;

/// The dotted name that `ParsedPacket::question` reports for a query that
/// `gen::query` built for `name`, or `None` where `gen::query` refuses the
/// name.
pub uninterp spec fn query_name(name: Seq<u8>) -> Option<Seq<u8>>;

/// The bytes, from the third on, of the packet that `gen::query` builds for
/// `name` and the type and class with the codes `rtype` and `class`: all of
/// the packet but its transaction id.
pub uninterp spec fn query_body(name: Seq<u8>, rtype: u16, class: u16) -> Seq<u8>;

/// The duration that `Duration::from_secs` makes of a number of seconds.
pub uninterp spec fn whole_seconds(secs: u64) -> Duration;

/// Whether `text` spells the upper-case ASCII `word`, letter case aside.
pub open spec fn spells(text: Seq<char>, word: Seq<char>) -> bool {
    &&& text.len() == word.len()
    &&& forall|i: int|
        0 <= i < word.len() ==> (text[i] == word[i] || text[i] as int == word[i] as int + 32)
}

/// The code of the record class called `name`.
pub open spec fn class_code(name: Seq<char>) -> Option<u16> {
    if spells(name, seq!['I', 'N']) {
        Some(1u16)
    } else if spells(name, seq!['C', 'H']) {
        Some(3u16)
    } else if spells(name, seq!['H', 'S']) {
        Some(4u16)
    } else if spells(name, seq!['N', 'O', 'N', 'E']) {
        Some(254u16)
    } else if spells(name, seq!['A', 'N', 'Y']) {
        Some(255u16)
    } else {
        None
    }
}

/// Whether the header of `wire` carries the "is a response" flag.
pub open spec fn flagged_response(wire: Seq<u8>) -> bool {
    wire[2] & 0x80 != 0
}

/// Whether the header of `wire` carries the "truncated" flag.
pub open spec fn flagged_truncated(wire: Seq<u8>) -> bool {
    wire[2] & 0x02 != 0
}

/// Calls `Class::from_string`, which knows the five classes `IN`, `CH`, `HS`,
/// `NONE` and `ANY` in either letter case, and converts the class to its code.
#[verifier::external_body]
pub(crate) fn codec_class_code(name: &str) -> (code: Option<u16>)
    ensures
        code == class_code(name@),
{
    dnssector::Class::from_string(name).ok().map(u16::from)
}

/// Calls `Type::from_string` and converts the type to its code. Of the table
/// of names only the four entries that this crate asks for are stated.
#[verifier::external_body]
pub(crate) fn codec_type_code(name: &str) -> (code: Option<u16>)
    ensures
        code == type_code(name@),
        spells(name@, seq!['A']) ==> code == Some(1u16),
        spells(name@, seq!['P', 'T', 'R']) ==> code == Some(12u16),
        spells(name@, seq!['T', 'X', 'T']) ==> code == Some(16u16),
        spells(name@, seq!['A', 'A', 'A', 'A']) ==> code == Some(28u16),
{
    dnssector::Type::from_string(name).ok().map(u16::from)
}

/// Calls `gen::query` for `name` with the type and class that
/// `Type::from_string` and `Class::from_string` make of the two words, and
/// hands out the packet's bytes with the question that
/// `ParsedPacket::question` reports. The transaction id, in the first two
/// bytes, is random; every byte after it follows from the name, the type and
/// the class. The header of a fresh query has the response flag cleared,
/// and the question carries the codes of the type and class that were asked
/// for.
#[verifier::external_body]
pub(crate) fn codec_build_query(name: &[u8], rr_type: &str, rr_class: &str) -> (built: Option<
    (Vec<u8>, Question),
>)
    ensures
        built is Some <==> (type_code(rr_type@) is Some && class_code(rr_class@) is Some
            && query_name(name@) is Some),
        built matches Some((wire, question)) ==> {
            &&& wire@.len() >= 12
            &&& wire@.skip(2) == query_body(
                name@,
                type_code(rr_type@)->0,
                class_code(rr_class@)->0,
            )
            &&& !flagged_response(wire@)
            &&& Some(question.name@) == query_name(name@)
            &&& Some(question.rtype) == type_code(rr_type@)
            &&& Some(question.class) == class_code(rr_class@)
        },
{
    let rr_type = dnssector::Type::from_string(rr_type).ok()?;
    let rr_class = dnssector::Class::from_string(rr_class).ok()?;
    let mut packet = dnssector::gen::query(name, rr_type, rr_class).ok()?;
    let (name, rtype, class) = packet.question()?;
    Some((packet.into_packet(), Question { name, rtype, class }))
}

/// Reads the constant `DNS_MAX_COMPRESSED_SIZE`, the codec's ceiling on the
/// size of a compressed message: 4096 bytes.
#[verifier::external_body]
pub(crate) fn codec_max_message_size() -> (size: usize)
    ensures
        size == 4096,
{
    dnssector::DNS_MAX_COMPRESSED_SIZE
}

/// Draws a transaction id with `Rng::gen` from `rand::thread_rng`. Nothing is
/// promised of the value.
#[verifier::external_body]
pub(crate) fn random_tid() -> u16 {
    rand::Rng::gen(&mut rand::thread_rng())
}

/// Calls `SliceRandom::shuffle` with `rand::thread_rng`, which reorders the
/// items in place: the same items remain, each as often as before.
#[verifier::external_body]
pub(crate) fn shuffle<T>(items: &mut Vec<T>)
    ensures
        final(items)@.to_multiset() == old(items)@.to_multiset(),
{
    rand::seq::SliceRandom::shuffle(items.as_mut_slice(), &mut rand::thread_rng())
}

/// Calls `String::from_utf8`, which succeeds on valid UTF-8 alone and then
/// yields the text that the bytes encode.
#[verifier::external_body]
pub(crate) fn string_from_utf8(bytes: Vec<u8>) -> (text: Option<String>)
    ensures
        text is Some <==> valid_utf8(bytes@),
        text matches Some(s) ==> s@ == decode_utf8(bytes@),
{
    String::from_utf8(bytes).ok()
}

/// Calls `Duration::from_secs`.
#[verifier::external_body]
pub(crate) fn duration_from_secs(secs: u64) -> (duration: Duration)
    ensures
        duration == whole_seconds(secs),
{
    Duration::from_secs(secs)
}

/// Calls `DNSSector::new` and `DNSSector::parse` and reports whether the
/// message was accepted. The parser rejects anything shorter than the
/// twelve-byte header.
#[verifier::external_body]
pub(crate) fn codec_accepts(bytes: &[u8]) -> (ok: bool)
    ensures
        ok == parses(bytes@),
        ok ==> bytes@.len() >= 12,
{
    dnssector::DNSSector::new(bytes.to_vec()).and_then(|sector| sector.parse()).is_ok()
}

/// Calls `ParsedPacket::question` on the parsed form of `bytes`, which gives
/// the question's name in dotted lower case with its type and class.
#[verifier::external_body]
pub(crate) fn codec_question(bytes: &[u8]) -> (question: Option<Question>)
    requires
        parses(bytes@),
    ensures
        question_view(question) == parsed_question(bytes@),
{
    let mut packet = dnssector::DNSSector::new(bytes.to_vec()).unwrap().parse().unwrap();
    packet.question().map(|(name, rtype, class)| Question { name, rtype, class })
}

/// Walks the answer section of the parsed form of `bytes` with
/// `ParsedPacket::into_iter_answer` and `DNSIterable::next`, and hands out
/// each record's `rr_class`, `rr_type` and payload. Where `RdataIterable::rr_rd`
/// reports an address, the payload is the record's data as it stands on the
/// wire: the octets that the codec made the address of.
#[verifier::external_body]
pub(crate) fn codec_answers(bytes: &[u8]) -> (answers: Vec<Record>)
    requires
        parses(bytes@),
    ensures
        records_view(answers@) == parsed_answers(bytes@),
{
    let mut packet = dnssector::DNSSector::new(bytes.to_vec()).unwrap().parse().unwrap();
    let mut answers = Vec::new();
    let mut cursor = packet.into_iter_answer();
    while let Some(item) = cursor {
        let data = match item.rr_rd().unwrap() {
            dnssector::RawRRData::IpAddr(_) => RecordData::Address(
                item.rdata_slice()[dnssector::DNS_RR_HEADER_SIZE..][..item.rr_rdlen()].to_vec(),
            ),
            dnssector::RawRRData::Data(raw) => RecordData::Bytes(raw.to_vec()),
        };
        answers.push(Record { class: item.rr_class(), rtype: item.rr_type(), data });
        cursor = item.next();
    }
    answers
}

} // verus!
