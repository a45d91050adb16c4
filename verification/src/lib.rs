//! A stub DNS resolver core that performs no I/O of its own.
//!
//! A [`DNSClient`] holds the upstream servers in failover order and the
//! settings of the transport. Each of its `query_*` methods starts a lookup
//! and hands back a [`Progress`]: while that is pending, the caller performs
//! the [`Exchange`] it names, with sockets of its own, and passes what came
//! back to [`Resolution::advance`]. The engine asks one server at a time,
//! front to back, retries a truncated UDP reply over TCP, and accepts a reply
//! only if it carries the transaction id and the question of the query.
//!
//! The functions of [`answers`], [`rdata`] and [`ptr`] then read addresses,
//! texts, raw record data and confirmed reverse names from the answer.

pub mod address;
pub mod answers;
pub mod backend;
pub mod client;
pub mod codec;
pub mod engine;
pub mod error;
pub mod message;
pub mod ptr;
pub mod rdata;
pub mod record;
pub mod system;
pub mod upstream_server;

pub use crate::address::{IpAddress, SocketAddress};
pub use crate::client::DNSClient;
pub use crate::engine::{Exchange, Progress, Resolution, Transport};
pub use crate::error::{Error, ErrorKind, TransportError};
pub use crate::message::Message;
pub use crate::record::{Question, Record, RecordData};
pub use crate::upstream_server::UpstreamServer;
