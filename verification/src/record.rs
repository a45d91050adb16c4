//! Questions and resource records as plain values.

use vstd::prelude::*;

verus! {

/// The question of a DNS message: a dotted lower-case name, a type and a class.
#[derive(Clone, Debug, PartialEq, Eq)]
pub struct Question {
    pub name: Vec<u8>,
    pub rtype: u16,
    pub class: u16,
}

/// The mathematical value of a [`Question`].
pub struct QuestionView {
    pub name: Seq<u8>,
    pub rtype: u16,
    pub class: u16,
}

impl View for Question {
    type V = QuestionView;

    open spec fn view(&self) -> QuestionView {
        QuestionView { name: self.name@, rtype: self.rtype, class: self.class }
    }
}

/// Whether two byte strings hold the same bytes.
pub fn same_bytes(a: &[u8], b: &[u8]) -> (same: bool)
    ensures
        same == (a@ == b@),
{
    if a.len() != b.len() {
        return false;
    }
    let mut i: usize = 0;
    while i < a.len()
        invariant
            a@.len() == b@.len(),
            i <= a@.len(),
            forall|j: int| 0 <= j < i ==> a@[j] == b@[j],
        decreases a@.len() - i,
    {
        if a[i] != b[i] {
            return false;
        }
        i += 1;
    }
    proof {
        assert(a@ =~= b@);
    }
    true
}

impl Question {
    /// Whether two questions ask for the same name, type and class.
    pub fn same(&self, other: &Question) -> (same: bool)
        ensures
            same == (self@ == other@),
    {
        self.rtype == other.rtype && self.class == other.class && same_bytes(
            self.name.as_slice(),
            other.name.as_slice(),
        )
    }
}

/// The payload of a resource record.
#[derive(Clone, Debug, PartialEq, Eq)]
pub enum RecordData {
    /// The octets of the address carried by an `A` or `AAAA` record, most
    /// significant first: four for IPv4, sixteen for IPv6.
    Address(Vec<u8>),
    /// The raw payload of any other record.
    Bytes(Vec<u8>),
}

/// The mathematical value of a [`RecordData`].
pub enum RecordDataView {
    Address(Seq<u8>),
    Bytes(Seq<u8>),
}

impl View for RecordData {
    type V = RecordDataView;

    open spec fn view(&self) -> RecordDataView {
        match self {
            RecordData::Address(octets) => RecordDataView::Address(octets@),
            RecordData::Bytes(bytes) => RecordDataView::Bytes(bytes@),
        }
    }
}

/// One resource record of an answer section.
#[derive(Clone, Debug, PartialEq, Eq)]
pub struct Record {
    pub class: u16,
    pub rtype: u16,
    pub data: RecordData,
}

/// The mathematical value of a [`Record`].
pub struct RecordView {
    pub class: u16,
    pub rtype: u16,
    pub data: RecordDataView,
}

impl View for Record {
    type V = RecordView;

    open spec fn view(&self) -> RecordView {
        RecordView { class: self.class, rtype: self.rtype, data: self.data@ }
    }
}

/// The values of a sequence of records, in order.
pub open spec fn records_view(records: Seq<Record>) -> Seq<RecordView> {
    records.map_values(|r: Record| r@)
}

/// The value of an optional question.
pub open spec fn question_view(question: Option<Question>) -> Option<QuestionView> {
    match question {
        Some(q) => Some(q@),
        None => None,
    }
}

/// The values of a list of names.
pub open spec fn names_view(names: Seq<String>) -> Seq<Seq<char>> {
    names.map_values(|name: String| name@)
}

} // verus!
