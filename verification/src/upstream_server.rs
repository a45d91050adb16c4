//! One candidate name server.

use vstd::prelude::*;
use crate::address::SocketAddress;

verus! {

/// An upstream name server, identified by its socket address.
#[derive(Clone, Copy, Debug, PartialEq, Eq)]
pub struct UpstreamServer {
    pub addr: SocketAddress,
}

impl UpstreamServer {
    /// The upstream server that listens at `addr`.
    pub fn new(addr: SocketAddress) -> (server: UpstreamServer)
        ensures
            server.addr == addr,
    {
        UpstreamServer { addr }
    }
}

} // verus!
