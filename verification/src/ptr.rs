//! Reverse lookups with forward confirmation.
//!
//! Only the `PTR` records of class `IN` in an answer are read; records of
//! another class or type, such as a `CNAME` in front of them, are passed
//! over. A name found in such a record is only reported if the name, looked
//! up forward, leads back to the address that was asked about: an answer
//! that nothing confirms is dropped, never surfaced.

use vstd::prelude::*;
use vstd::utf8::{decode_utf8, encode_utf8, valid_utf8};
use crate::address::IpAddress;
use crate::answers::{RecordKind, address_octets, raw_payload_of_kind};
use crate::client::{DNSClient, CLASS_IN, TYPE_A, TYPE_AAAA, TYPE_PTR};
use crate::codec::string_from_utf8;
use crate::engine::Progress;
use crate::error::Error;
use crate::message::Message;
use crate::rdata::{decode_name, name_of};
use crate::record::{Record, RecordData, RecordView, names_view, records_view, same_bytes};

verus! {

/// A reverse lookup between two forward confirmations.
#[derive(Debug)]
pub struct PtrLookup {
    ip: IpAddress,
    records: Vec<Record>,
    next: usize,
    names: Vec<String>,
}

/// The mathematical value of a [`PtrLookup`].
pub struct PtrLookupView {
    /// The address that is looked up.
    pub ip: IpAddress,
    /// The answers to the `PTR` query.
    pub records: Seq<RecordView>,
    /// The position of the first answer not yet looked at.
    pub next: int,
    /// The names confirmed so far, in the order of the answers.
    pub names: Seq<Seq<char>>,
}

/// A name from a `PTR` answer that awaits its forward confirmation.
#[derive(Debug)]
pub struct PtrCandidate {
    lookup: PtrLookup,
    name: String,
}

/// The mathematical value of a [`PtrCandidate`].
pub struct PtrCandidateView {
    /// The lookup as it goes on once the candidate is settled.
    pub lookup: PtrLookupView,
    /// The name to confirm.
    pub name: Seq<char>,
}

/// Where a reverse lookup stands.
#[derive(Debug)]
pub enum PtrProgress {
    /// The candidate's name must be resolved forward, starting from the
    /// given state; the outcome goes to [`PtrCandidate::confirm`].
    Confirm(PtrCandidate, Progress),
    /// Every answer has been looked at: these names are confirmed.
    Done(Vec<String>),
    /// The lookup failed.
    Failed(Error),
}

/// What the answers from position `from` on hold next.
pub enum Scan {
    /// The answer at position `at` holds `name`, which is valid UTF-8.
    Candidate { at: int, name: Seq<u8> },
    /// An answer's payload is cut short.
    Invalid,
    /// No answer is left.
    End,
}

/// The kind of record that a reverse lookup reads: `PTR` in class `IN`.
pub open spec fn pointer_kind() -> RecordKind {
    RecordKind { class: CLASS_IN, rtype: TYPE_PTR }
}

/// Looks for the next name among `records` from position `from` on.
///
/// Only the `PTR` records of class `IN` are read. Records of another class
/// or type are passed over, whatever they hold, as are names that are not
/// valid UTF-8. A `PTR` payload that is cut short ends the search.
pub open spec fn scan(records: Seq<RecordView>, from: int) -> Scan
    decreases records.len() - from,
{
    if from < 0 || from >= records.len() {
        Scan::End
    } else {
        match raw_payload_of_kind(records[from], pointer_kind()) {
            None => scan(records, from + 1),
            Some(payload) => match name_of(payload) {
                None => Scan::Invalid,
                Some(name) => if valid_utf8(name) {
                    Scan::Candidate { at: from, name }
                } else {
                    scan(records, from + 1)
                },
            },
        }
    }
}

/// Whether the address `ip` appears among the addresses of its own family in
/// `answers`.
pub open spec fn confirms(answers: Seq<RecordView>, ip: IpAddress) -> bool {
    exists|i: int|
        0 <= i < answers.len() && address_octets(#[trigger] answers[i], ip.octets().len()) == Some(
            ip.octets(),
        )
}

/// The record type that confirms a name for `ip`: `A` for an IPv4 address,
/// `AAAA` for an IPv6 one.
pub open spec fn forward_type(ip: IpAddress) -> u16 {
    if ip is V4 {
        TYPE_A
    } else {
        TYPE_AAAA
    }
}

impl View for PtrLookup {
    type V = PtrLookupView;

    closed spec fn view(&self) -> PtrLookupView {
        PtrLookupView {
            ip: self.ip,
            records: records_view(self.records@),
            next: self.next as int,
            names: names_view(self.names@),
        }
    }
}

impl View for PtrCandidate {
    type V = PtrCandidateView;

    closed spec fn view(&self) -> PtrCandidateView {
        PtrCandidateView { lookup: self.lookup@, name: self.name@ }
    }
}

impl PtrLookupView {
    /// The lookup once the answer at position `at` has been looked at.
    pub open spec fn past(self, at: int) -> PtrLookupView {
        PtrLookupView { next: at + 1, ..self }
    }

    /// The lookup with one more confirmed name.
    pub open spec fn with_name(self, name: Seq<char>) -> PtrLookupView {
        PtrLookupView { names: self.names.push(name), ..self }
    }
}

/// Whether `ip` appears among the addresses of its own family in `answers`.
pub fn is_confirmed(answers: &Vec<Record>, ip: &IpAddress) -> (found: bool)
    ensures
        found == confirms(records_view(answers@), *ip),
{
    let ghost all = records_view(answers@);
    let mut i: usize = 0;
    while i < answers.len()
        invariant
            i <= answers@.len(),
            all == records_view(answers@),
            forall|j: int|
                0 <= j < i ==> address_octets(#[trigger] all[j], ip.octets().len()) != Some(
                    ip.octets(),
                ),
        decreases answers@.len() - i,
    {
        let same = match &answers[i].data {
            RecordData::Address(octets) => match ip {
                IpAddress::V4(wanted) => same_bytes(octets.as_slice(), wanted.as_slice()),
                IpAddress::V6(wanted) => same_bytes(octets.as_slice(), wanted.as_slice()),
            },
            RecordData::Bytes(_) => false,
        };
        if same {
            assert(address_octets(all[i as int], ip.octets().len()) == Some(ip.octets()));
            return true;
        }
        i += 1;
    }
    false
}

impl PtrLookup {
    /// Starts the reverse lookup of `ip` from the validated answer to its
    /// `PTR` query: no answer has been looked at, no name is confirmed.
    pub fn new(ip: IpAddress, response: Message) -> (lookup: PtrLookup)
        ensures
            lookup@ == (PtrLookupView {
                ip,
                records: response@.answers,
                next: 0,
                names: Seq::empty(),
            }),
    {
        let (_, _, records) = response.into_parts();
        let lookup = PtrLookup { ip, records, next: 0, names: Vec::new() };
        assert(lookup@.names =~= Seq::empty());
        lookup
    }

    /// Looks for the next name to confirm.
    ///
    /// Each `PTR` answer of class `IN` is decoded as a name; answers of
    /// another class or type are passed over without being read. A `PTR`
    /// payload that is cut short fails the lookup with
    /// [`Error::InvalidRecord`]. A name that is valid UTF-8 becomes a
    /// candidate: `client` starts the forward query for it, `A` for an IPv4
    /// address and `AAAA` for an IPv6 one. When no answer is left, the
    /// confirmed names are the result.
    pub fn advance(self, client: &DNSClient) -> (progress: PtrProgress)
        ensures
            match scan(self@.records, self@.next) {
                Scan::End => progress matches PtrProgress::Done(names) && names_view(names@)
                    == self@.names,
                Scan::Invalid => progress matches PtrProgress::Failed(e) && e
                    == Error::InvalidRecord,
                Scan::Candidate { at, name } => progress matches PtrProgress::Confirm(
                    candidate,
                    forward,
                ) && candidate@ == (PtrCandidateView {
                    lookup: self@.past(at),
                    name: decode_utf8(name),
                }) && client@.asks(
                    forward@,
                    encode_utf8(candidate@.name),
                    RecordKind { class: CLASS_IN, rtype: forward_type(self@.ip) },
                ),
            },
    {
        let mut lookup = self;
        while lookup.next < lookup.records.len()
            invariant
                lookup@ == (PtrLookupView { next: lookup.next as int, ..self@ }),
                scan(self@.records, lookup.next as int) == scan(self@.records, self@.next),
            decreases lookup.records@.len() - lookup.next,
        {
            let at = lookup.next;
            lookup.next = at + 1;
            let record = &lookup.records[at];
            if record.class == CLASS_IN && record.rtype == TYPE_PTR {
                match &record.data {
                    RecordData::Bytes(payload) => {
                        match decode_name(payload.as_slice()) {
                            Err(e) => {
                                return PtrProgress::Failed(e);
                            },
                            Ok(name) => {
                                match string_from_utf8(name) {
                                    Some(text) => {
                                        let forward = if lookup.ip.is_v4() {
                                            client.query_a(text.as_str())
                                        } else {
                                            client.query_aaaa(text.as_str())
                                        };
                                        return PtrProgress::Confirm(
                                            PtrCandidate { lookup, name: text },
                                            forward,
                                        );
                                    },
                                    None => {},
                                }
                            },
                        }
                    },
                    RecordData::Address(_) => {},
                }
            }
        }
        PtrProgress::Done(lookup.names)
    }
}

impl PtrCandidate {
    /// The name that awaits confirmation.
    pub fn name(&self) -> (name: &String)
        ensures
            name@ == self@.name,
    {
        &self.name
    }

    /// Settles the candidate with the outcome of its forward resolution.
    ///
    /// The name is kept only if the address that is looked up appears among
    /// the addresses of its own family in the forward answer. A forward
    /// resolution that failed fails the whole lookup with the same error.
    pub fn confirm(self, forward: Result<Message, Error>) -> (settled: Result<PtrLookup, Error>)
        ensures
            match self@.settled(forward_view(forward)) {
                Ok(lookup) => settled matches Ok(next) && next@ == lookup,
                Err(e) => settled matches Err(error) && error == e,
            },
    {
        match forward {
            Err(e) => Err(e),
            Ok(answer) => {
                let mut lookup = self.lookup;
                if is_confirmed(answer.answers(), &lookup.ip) {
                    proof {
                        assert(names_view(lookup.names@.push(self.name)) =~= names_view(
                            lookup.names@,
                        ).push(self.name@));
                    }
                    lookup.names.push(self.name);
                }
                Ok(lookup)
            },
        }
    }
}

/// The answers of a forward resolution, or the error it failed with.
pub open spec fn forward_view(forward: Result<Message, Error>) -> Result<Seq<RecordView>, Error> {
    match forward {
        Ok(answer) => Ok(answer@.answers),
        Err(e) => Err(e),
    }
}

impl PtrCandidateView {
    /// The lookup once the candidate is settled with the outcome of its
    /// forward resolution.
    pub open spec fn settled(self, forward: Result<Seq<RecordView>, Error>) -> Result<
        PtrLookupView,
        Error,
    > {
        match forward {
            Err(e) => Err(e),
            Ok(answers) => if confirms(answers, self.lookup.ip) {
                Ok(self.lookup.with_name(self.name))
            } else {
                Ok(self.lookup)
            },
        }
    }
}

/// Whether each of `names`, looked up forward as `forward` tells, leads back
/// to `ip`.
pub open spec fn all_confirmed(
    names: Seq<Seq<char>>,
    ip: IpAddress,
    forward: spec_fn(Seq<char>) -> Result<Seq<RecordView>, Error>,
) -> bool {
    forall|i: int|
        0 <= i < names.len() ==> (forward(#[trigger] names[i]) matches Ok(answers) && confirms(
            answers,
            ip,
        ))
}

/// A name whose forward lookup does not lead back to the address is left
/// out: settling the candidate leaves the confirmed names as they were.
pub proof fn law_unconfirmed_name_is_dropped(
    candidate: PtrCandidateView,
    answers: Seq<RecordView>,
)
    requires
        !confirms(answers, candidate.lookup.ip),
    ensures
        candidate.settled(Ok(answers)) == Ok::<PtrLookupView, Error>(candidate.lookup),
{
}

/// Only confirmed names are ever reported: if every name confirmed so far
/// leads back to the address, so does every name after one more candidate
/// has been settled.
pub proof fn law_reported_names_are_confirmed(
    candidate: PtrCandidateView,
    forward: spec_fn(Seq<char>) -> Result<Seq<RecordView>, Error>,
)
    requires
        all_confirmed(candidate.lookup.names, candidate.lookup.ip, forward),
    ensures
        candidate.settled(forward(candidate.name)) matches Ok(lookup) ==> all_confirmed(
            lookup.names,
            lookup.ip,
            forward,
        ),
{
}

/// A candidate stands at or after the position it is searched from, among
/// the answers.
pub proof fn lemma_scan_bounds(records: Seq<RecordView>, from: int)
    ensures
        scan(records, from) matches Scan::Candidate { at, name } ==> 0 <= from <= at
            < records.len(),
    decreases records.len() - from,
{
    if 0 <= from < records.len() {
        lemma_scan_bounds(records, from + 1);
    }
}

/// The result of a whole reverse lookup, from where `lookup` stands, when
/// the forward lookup of each name turns out as `forward` tells.
pub open spec fn outcome(
    lookup: PtrLookupView,
    forward: spec_fn(Seq<char>) -> Result<Seq<RecordView>, Error>,
) -> Result<Seq<Seq<char>>, Error>
    decreases lookup.records.len() - lookup.next,
{
    match scan(lookup.records, lookup.next) {
        Scan::End => Ok(lookup.names),
        Scan::Invalid => Err(Error::InvalidRecord),
        Scan::Candidate { at, name } => {
            proof {
                lemma_scan_bounds(lookup.records, lookup.next);
            }
            let candidate = PtrCandidateView { lookup: lookup.past(at), name: decode_utf8(name) };
            match candidate.settled(forward(candidate.name)) {
                Ok(next) => outcome(next, forward),
                Err(e) => Err(e),
            }
        },
    }
}

/// A reverse lookup reports no name that its forward lookup does not
/// confirm: every name in the result leads back to the address.
pub proof fn law_lookup_reports_confirmed_names(
    lookup: PtrLookupView,
    forward: spec_fn(Seq<char>) -> Result<Seq<RecordView>, Error>,
)
    requires
        all_confirmed(lookup.names, lookup.ip, forward),
    ensures
        outcome(lookup, forward) matches Ok(names) ==> all_confirmed(names, lookup.ip, forward),
    decreases lookup.records.len() - lookup.next,
{
    match scan(lookup.records, lookup.next) {
        Scan::Candidate { at, name } => {
            lemma_scan_bounds(lookup.records, lookup.next);
            let candidate = PtrCandidateView { lookup: lookup.past(at), name: decode_utf8(name) };
            law_reported_names_are_confirmed(candidate, forward);
            match candidate.settled(forward(candidate.name)) {
                Ok(next) => {
                    law_lookup_reports_confirmed_names(next, forward);
                },
                Err(_) => {},
            }
        },
        _ => {},
    }
}

/// Whether `record` is of the kind that a reverse lookup reads.
pub open spec fn is_pointer(record: RecordView) -> bool {
    record.class == pointer_kind().class && record.rtype == pointer_kind().rtype
}

/// The `PTR` records of class `IN` among `records` from position `from` on,
/// in order.
pub open spec fn pointers_from(records: Seq<RecordView>, from: int) -> Seq<RecordView>
    decreases records.len() - from,
{
    if from < 0 || from >= records.len() {
        Seq::empty()
    } else if is_pointer(records[from]) {
        seq![records[from]] + pointers_from(records, from + 1)
    } else {
        pointers_from(records, from + 1)
    }
}

/// The answers that are still to be looked at.
pub open spec fn answers_left(lookup: PtrLookupView) -> int {
    if 0 <= lookup.next < lookup.records.len() {
        lookup.records.len() - lookup.next
    } else {
        0
    }
}

/// Two reverse lookups of one address that have confirmed the same names
/// and have the same `PTR` records of class `IN` ahead of them end alike,
/// whatever other records stand between those.
pub proof fn law_other_records_do_not_count(
    one: PtrLookupView,
    other: PtrLookupView,
    forward: spec_fn(Seq<char>) -> Result<Seq<RecordView>, Error>,
)
    requires
        one.ip == other.ip,
        one.names == other.names,
        pointers_from(one.records, one.next) == pointers_from(other.records, other.next),
    ensures
        outcome(one, forward) == outcome(other, forward),
    decreases answers_left(one) + answers_left(other),
{
    let here = 0 <= one.next < one.records.len();
    let there = 0 <= other.next < other.records.len();
    if here && !is_pointer(one.records[one.next]) {
        law_other_records_do_not_count(one.past(one.next), other, forward);
    } else if there && !is_pointer(other.records[other.next]) {
        law_other_records_do_not_count(one, other.past(other.next), forward);
    } else if here && there {
        let ahead = pointers_from(one.records, one.next);
        let rest = pointers_from(one.records, one.next + 1);
        let rest_there = pointers_from(other.records, other.next + 1);
        assert(ahead[0] == one.records[one.next]);
        assert(ahead[0] == other.records[other.next]);
        assert(rest =~= ahead.skip(1));
        assert(rest_there =~= ahead.skip(1));
        let record = one.records[one.next];
        match raw_payload_of_kind(record, pointer_kind()) {
            None => {
                law_other_records_do_not_count(
                    one.past(one.next),
                    other.past(other.next),
                    forward,
                );
            },
            Some(payload) => match name_of(payload) {
                None => {},
                Some(name) => {
                    if valid_utf8(name) {
                        let text = decode_utf8(name);
                        let mine = PtrCandidateView { lookup: one.past(one.next), name: text };
                        let theirs = PtrCandidateView {
                            lookup: other.past(other.next),
                            name: text,
                        };
                        match mine.settled(forward(text)) {
                            Ok(next) => {
                                law_other_records_do_not_count(
                                    next,
                                    theirs.settled(forward(text))->Ok_0,
                                    forward,
                                );
                            },
                            Err(_) => {},
                        }
                    } else {
                        law_other_records_do_not_count(
                            one.past(one.next),
                            other.past(other.next),
                            forward,
                        );
                    }
                },
            },
        }
    } else if here {
        assert(pointers_from(one.records, one.next)[0] == one.records[one.next]);
    } else if there {
        assert(pointers_from(other.records, other.next)[0] == other.records[other.next]);
    }
}

/// Among records that are all `PTR` records of class `IN`, all are read.
proof fn lemma_pointers_of_pointers(records: Seq<RecordView>, from: int)
    requires
        0 <= from <= records.len(),
        forall|i: int| 0 <= i < records.len() ==> is_pointer(#[trigger] records[i]),
    ensures
        pointers_from(records, from) == records.skip(from),
    decreases records.len() - from,
{
    if from < records.len() {
        lemma_pointers_of_pointers(records, from + 1);
        assert(seq![records[from]] + records.skip(from + 1) =~= records.skip(from));
    } else {
        assert(records.skip(from) =~= Seq::<RecordView>::empty());
    }
}

/// What a reverse lookup reads are `PTR` records of class `IN`.
proof fn lemma_pointers_are_pointers(records: Seq<RecordView>, from: int)
    ensures
        forall|i: int|
            0 <= i < pointers_from(records, from).len() ==> is_pointer(
                #[trigger] pointers_from(records, from)[i],
            ),
    decreases records.len() - from,
{
    if 0 <= from < records.len() {
        lemma_pointers_are_pointers(records, from + 1);
        let rest = pointers_from(records, from + 1);
        let all = pointers_from(records, from);
        assert forall|i: int| 0 <= i < all.len() implies is_pointer(#[trigger] all[i]) by {
            if is_pointer(records[from]) && i > 0 {
                assert(all[i] == rest[i - 1]);
            }
        }
    }
}

/// Records of another class or type change nothing: a reverse lookup ends
/// on an answer as it does on that answer with every record taken out that
/// is no `PTR` record of class `IN`. Such records are neither decoded nor
/// looked up forward, and fail nothing, whatever their data.
pub proof fn law_only_pointer_records_count(
    lookup: PtrLookupView,
    forward: spec_fn(Seq<char>) -> Result<Seq<RecordView>, Error>,
)
    requires
        lookup.next == 0,
    ensures
        outcome(lookup, forward) == outcome(
            PtrLookupView { records: pointers_from(lookup.records, 0), ..lookup },
            forward,
        ),
{
    let kept = pointers_from(lookup.records, 0);
    lemma_pointers_are_pointers(lookup.records, 0);
    lemma_pointers_of_pointers(kept, 0);
    assert(kept.skip(0) =~= kept);
    law_other_records_do_not_count(
        lookup,
        PtrLookupView { records: kept, ..lookup },
        forward,
    );
}

} // verus!
