//! Failures reported by the resolver.

use vstd::prelude::*;

verus! {

/// The coarse class of a failure.
#[derive(Clone, Copy, Debug, PartialEq, Eq, Structural)]
pub enum ErrorKind {
    /// Malformed bytes, an unknown class or type name, an outbound query
    /// without a question, a truncated record encoding, or no usable reply.
    InvalidInput,
    /// A reply whose transaction id or question differs from the query's.
    PermissionDenied,
    /// No reply within the configured timeout.
    TimedOut,
    /// The peer could not be reached or closed the connection.
    ConnectionFailed,
    /// A framed reply announced more bytes than a message may hold.
    InvalidData,
    /// Host configuration named no usable upstream server.
    NotFound,
}

/// Why one exchange with one server produced no bytes.
#[derive(Clone, Copy, Debug, PartialEq, Eq, Structural)]
pub enum TransportError {
    /// Nothing arrived before the timeout expired.
    Timeout,
    /// The socket could not be bound or connected, or the peer went away.
    Connection,
    /// The length prefix of a TCP reply exceeds the message size ceiling.
    ResponseTooLarge,
}

/// A failure of a resolver operation.
#[derive(Clone, Copy, Debug, PartialEq, Eq, Structural)]
pub enum Error {
    /// The message codec rejected the bytes, the name, the class or the type.
    Codec,
    /// An outbound query carries no question, or is flagged as a response.
    NoQuestion,
    /// Every upstream server failed.
    NoResponse,
    /// A reply does not match the query it claims to answer.
    UnexpectedResponse,
    /// A length-prefixed chunk announces more bytes than remain.
    InvalidRecord,
    /// Host configuration named no usable upstream server.
    NoUpstreamServers,
}

impl TransportError {
    /// The class of this transport failure.
    pub open spec fn spec_kind(self) -> ErrorKind {
        match self {
            TransportError::Timeout => ErrorKind::TimedOut,
            TransportError::Connection => ErrorKind::ConnectionFailed,
            TransportError::ResponseTooLarge => ErrorKind::InvalidData,
        }
    }

    /// The class of this transport failure.
    #[verifier::when_used_as_spec(spec_kind)]
    pub fn kind(self) -> (k: ErrorKind)
        ensures
            k == self.spec_kind(),
    {
        match self {
            TransportError::Timeout => ErrorKind::TimedOut,
            TransportError::Connection => ErrorKind::ConnectionFailed,
            TransportError::ResponseTooLarge => ErrorKind::InvalidData,
        }
    }
}

impl Error {
    /// The class of this failure.
    pub open spec fn spec_kind(self) -> ErrorKind {
        match self {
            Error::Codec => ErrorKind::InvalidInput,
            Error::NoQuestion => ErrorKind::InvalidInput,
            Error::NoResponse => ErrorKind::InvalidInput,
            Error::UnexpectedResponse => ErrorKind::PermissionDenied,
            Error::InvalidRecord => ErrorKind::InvalidInput,
            Error::NoUpstreamServers => ErrorKind::NotFound,
        }
    }

    /// The class of this failure.
    #[verifier::when_used_as_spec(spec_kind)]
    pub fn kind(self) -> (k: ErrorKind)
        ensures
            k == self.spec_kind(),
    {
        match self {
            Error::Codec => ErrorKind::InvalidInput,
            Error::NoQuestion => ErrorKind::InvalidInput,
            Error::NoResponse => ErrorKind::InvalidInput,
            Error::UnexpectedResponse => ErrorKind::PermissionDenied,
            Error::InvalidRecord => ErrorKind::InvalidInput,
            Error::NoUpstreamServers => ErrorKind::NotFound,
        }
    }
}

} // verus!
