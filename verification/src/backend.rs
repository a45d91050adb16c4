//! Transport settings and the framing of DNS messages on a TCP stream.

use vstd::prelude::*;
use std::time::Duration;
use crate::codec::codec_max_message_size;
use crate::error::TransportError;

verus! {

/// The most bytes that a reply may hold.
pub const MAX_RESPONSE_LEN: usize = 4096;

/// Settings of the blocking transport.
#[derive(Clone, Copy, Debug)]
pub struct SyncBackend {
    pub upstream_server_timeout: Duration,
}

/// Settings of the non-blocking transport.
#[derive(Clone, Copy, Debug)]
pub struct AsyncBackend {
    pub upstream_server_timeout: Duration,
}

impl SyncBackend {
    /// A blocking transport that gives each exchange `upstream_server_timeout`.
    pub fn new(upstream_server_timeout: Duration) -> (backend: SyncBackend)
        ensures
            backend.upstream_server_timeout == upstream_server_timeout,
    {
        SyncBackend { upstream_server_timeout }
    }
}

impl AsyncBackend {
    /// A non-blocking transport that gives each exchange `upstream_server_timeout`.
    pub fn new(upstream_server_timeout: Duration) -> (backend: AsyncBackend)
        ensures
            backend.upstream_server_timeout == upstream_server_timeout,
    {
        AsyncBackend { upstream_server_timeout }
    }
}

/// The most bytes that a reply may hold: the codec's ceiling on the size of
/// a compressed message.
pub fn max_response_len() -> (len: usize)
    ensures
        len == MAX_RESPONSE_LEN,
{
    codec_max_message_size()
}

/// A query as it travels over TCP: two bytes that give its length, most
/// significant first, then the query itself.
///
/// Only the low sixteen bits of the length fit the prefix.
pub open spec fn framed(query: Seq<u8>) -> Seq<u8> {
    seq![((query.len() / 256) % 256) as u8, (query.len() % 256) as u8] + query
}

/// The length that the two-byte prefix of a TCP reply announces.
pub open spec fn announced_len(high: u8, low: u8) -> int {
    high as int * 256 + low as int
}

/// Frames `query` for a TCP stream.
pub fn frame_query(query: &[u8]) -> (frame: Vec<u8>)
    ensures
        frame@ == framed(query@),
{
    let len = query.len();
    let mut frame: Vec<u8> = Vec::new();
    frame.push(((len / 256) % 256) as u8);
    frame.push((len % 256) as u8);
    let mut i: usize = 0;
    while i < len
        invariant
            len == query@.len(),
            i <= len,
            frame@ == framed(query@).subrange(0, 2 + i),
        decreases len - i,
    {
        frame.push(query[i]);
        i += 1;
        assert(frame@ =~= framed(query@).subrange(0, 2 + i));
    }
    assert(frame@ =~= framed(query@));
    frame
}

/// Reads the two-byte length prefix of a TCP reply.
///
/// A reply that announces more than [`MAX_RESPONSE_LEN`] bytes is refused
/// before its body is read.
pub fn response_len(high: u8, low: u8) -> (len: Result<usize, TransportError>)
    ensures
        len is Ok <==> announced_len(high, low) <= MAX_RESPONSE_LEN,
        len matches Ok(n) ==> n == announced_len(high, low),
        len matches Err(e) ==> e == TransportError::ResponseTooLarge,
{
    let announced = high as usize * 256 + low as usize;
    if announced > max_response_len() {
        Err(TransportError::ResponseTooLarge)
    } else {
        Ok(announced)
    }
}

} // verus!
