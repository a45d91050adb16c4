//! DNS messages: the wire bytes together with what the codec read from them.

use vstd::prelude::*;
use crate::codec::{
    codec_accepts, codec_answers, codec_question, flagged_response, flagged_truncated,
    parsed_answers, parsed_question, parses,
};
use crate::error::Error;
use crate::record::{Question, QuestionView, Record, RecordView, question_view, records_view};

verus! {

/// The length of the fixed header that starts every DNS message.
pub const HEADER_LEN: usize = 12;

/// The transaction id that the first two bytes of `wire` spell, most
/// significant byte first.
pub open spec fn wire_tid(wire: Seq<u8>) -> u16 {
    (wire[0] as int * 256 + wire[1] as int) as u16
}

/// `wire` with its first two bytes replaced by `tid`, most significant byte
/// first.
pub open spec fn with_tid(wire: Seq<u8>, tid: u16) -> Seq<u8> {
    wire.update(0, (tid / 256) as u8).update(1, (tid % 256) as u8)
}

/// A DNS message.
///
/// A message always holds at least the twelve bytes of a header.
#[derive(Debug)]
pub struct Message {
    wire: Vec<u8>,
    question: Option<Question>,
    answers: Vec<Record>,
}

/// The mathematical value of a [`Message`].
pub struct MessageView {
    pub wire: Seq<u8>,
    pub question: Option<QuestionView>,
    pub answers: Seq<RecordView>,
}

/// The message that the codec reads from bytes that parse.
pub open spec fn decoded(bytes: Seq<u8>) -> MessageView {
    MessageView {
        wire: bytes,
        question: parsed_question(bytes),
        answers: parsed_answers(bytes),
    }
}

impl MessageView {
    /// The transaction id in the header.
    pub open spec fn tid(self) -> u16 {
        wire_tid(self.wire)
    }

    /// Whether the header marks the message as a response.
    pub open spec fn is_response(self) -> bool {
        flagged_response(self.wire)
    }

    /// Whether the header marks the message as truncated.
    pub open spec fn is_truncated(self) -> bool {
        flagged_truncated(self.wire)
    }

    /// The message with its transaction id replaced by `tid`.
    pub open spec fn with_tid(self, tid: u16) -> MessageView {
        MessageView { wire: with_tid(self.wire, tid), ..self }
    }
}

impl View for Message {
    type V = MessageView;

    closed spec fn view(&self) -> MessageView {
        MessageView {
            wire: self.wire@,
            question: question_view(self.question),
            answers: records_view(self.answers@),
        }
    }
}

impl Message {
    #[verifier::type_invariant]
    spec fn has_header(self) -> bool {
        self.wire@.len() >= HEADER_LEN
    }

    /// Puts a message together from its bytes and what was read from them.
    /// Fewer bytes than a header holds make no message.
    pub fn from_parts(wire: Vec<u8>, question: Option<Question>, answers: Vec<Record>) -> (message:
        Option<Message>)
        ensures
            message is Some <==> wire@.len() >= HEADER_LEN,
            message matches Some(m) ==> m@ == (MessageView {
                wire: wire@,
                question: question_view(question),
                answers: records_view(answers@),
            }),
    {
        if wire.len() < HEADER_LEN {
            None
        } else {
            Some(Message { wire, question, answers })
        }
    }

    /// Decodes a message from its wire bytes.
    ///
    /// Succeeds exactly on the bytes that the codec accepts; the message then
    /// holds those bytes with the question and the answers that the codec
    /// reads from them.
    pub fn decode(bytes: Vec<u8>) -> (message: Result<Message, Error>)
        ensures
            message is Ok <==> parses(bytes@),
            message matches Ok(m) ==> m@ == decoded(bytes@),
            message matches Err(e) ==> e == Error::Codec,
    {
        if !codec_accepts(bytes.as_slice()) {
            return Err(Error::Codec);
        }
        let question = codec_question(bytes.as_slice());
        let answers = codec_answers(bytes.as_slice());
        Ok(Message { wire: bytes, question, answers })
    }

    /// The transaction id.
    pub fn tid(&self) -> (tid: u16)
        ensures
            tid == self@.tid(),
    {
        proof {
            use_type_invariant(self);
        }
        let high: u16 = self.wire[0] as u16;
        let low: u16 = self.wire[1] as u16;
        high * 256 + low
    }

    /// Overwrites the transaction id and leaves everything else as it was.
    pub fn set_tid(&mut self, tid: u16)
        ensures
            final(self)@ == old(self)@.with_tid(tid),
            final(self)@.tid() == tid,
    {
        proof {
            use_type_invariant(&*self);
        }
        self.wire[0] = (tid / 256) as u8;
        self.wire[1] = (tid % 256) as u8;
    }

    /// Whether the header marks the message as a response.
    pub fn is_response(&self) -> (response: bool)
        ensures
            response == self@.is_response(),
    {
        proof {
            use_type_invariant(self);
        }
        self.wire[2] & 0x80 != 0
    }

    /// Whether the header marks the message as truncated.
    pub fn is_truncated(&self) -> (truncated: bool)
        ensures
            truncated == self@.is_truncated(),
    {
        proof {
            use_type_invariant(self);
        }
        self.wire[2] & 0x02 != 0
    }

    /// The question, if the message has one.
    pub fn question(&self) -> (question: &Option<Question>)
        ensures
            question_view(*question) == self@.question,
    {
        &self.question
    }

    /// The records of the answer section, in wire order.
    pub fn answers(&self) -> (answers: &Vec<Record>)
        ensures
            records_view(answers@) == self@.answers,
    {
        &self.answers
    }

    /// The wire bytes.
    pub fn wire(&self) -> (wire: &Vec<u8>)
        ensures
            wire@ == self@.wire,
            wire@.len() >= HEADER_LEN,
    {
        proof {
            use_type_invariant(self);
        }
        &self.wire
    }

    /// Takes the message apart into its bytes, its question and its answers.
    pub fn into_parts(self) -> (parts: (Vec<u8>, Option<Question>, Vec<Record>))
        ensures
            parts.0@ == self@.wire,
            parts.0@.len() >= HEADER_LEN,
            question_view(parts.1) == self@.question,
            records_view(parts.2@) == self@.answers,
    {
        proof {
            use_type_invariant(&self);
        }
        (self.wire, self.question, self.answers)
    }

    /// Gives up the message for its wire bytes.
    pub fn into_wire(self) -> (wire: Vec<u8>)
        ensures
            wire@ == self@.wire,
            wire@.len() >= HEADER_LEN,
    {
        proof {
            use_type_invariant(&self);
        }
        self.wire
    }
}

} // verus!
