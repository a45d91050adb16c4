//! The resolver's configuration and the start of every kind of lookup.

use vstd::prelude::*;
use vstd::string::StringSliceAdditionalSpecFns;
use std::time::Duration;
use crate::address::{IpAddress, SocketAddress};
use crate::answers::RecordKind;
use crate::backend::SyncBackend;
use crate::codec::{
    class_code, codec_build_query, codec_class_code, codec_type_code, duration_from_secs,
    flagged_response, parses, query_body, query_name, random_tid, spells, type_code,
    whole_seconds,
};
use crate::engine::{Progress, ProgressView, Resolution, ResolutionView, first_transport, run};
use crate::error::Error;
use crate::message::{Message, MessageView, HEADER_LEN, decoded, wire_tid, with_tid};
use crate::rdata::{reverse_name, reverse_name_of};
use crate::record::QuestionView;
use crate::upstream_server::UpstreamServer;

verus! {

/// The code of the class `IN`.
pub const CLASS_IN: u16 = 1;

/// The code of the record type `A`.
pub const TYPE_A: u16 = 1;

/// The code of the record type `PTR`.
pub const TYPE_PTR: u16 = 12;

/// The code of the record type `TXT`.
pub const TYPE_TXT: u16 = 16;

/// The code of the record type `AAAA`.
pub const TYPE_AAAA: u16 = 28;

/// A stub resolver: the upstream servers in failover order, and how to
/// reach them.
#[derive(Clone, Debug)]
pub struct DNSClient {
    backend: SyncBackend,
    upstream_servers: Vec<UpstreamServer>,
    local_v4_addr: SocketAddress,
    local_v6_addr: SocketAddress,
    force_tcp: bool,
}

/// The mathematical value of a [`DNSClient`].
pub struct DNSClientView {
    /// The upstream servers, in failover order.
    pub upstream_servers: Seq<UpstreamServer>,
    /// The time allowed for each exchange.
    pub timeout: Duration,
    /// The local address for exchanges with IPv4 servers.
    pub local_v4_addr: SocketAddress,
    /// The local address for exchanges with IPv6 servers.
    pub local_v6_addr: SocketAddress,
    /// Whether UDP is skipped.
    pub force_tcp: bool,
}

/// The bytes handed back for a raw query: the answer's bytes, with the
/// caller's own transaction id put back where it had been masked.
pub open spec fn raw_response_of(answer: MessageView, caller_tid: Option<u16>) -> Seq<u8> {
    match caller_tid {
        Some(tid) => with_tid(answer.wire, tid),
        None => answer.wire,
    }
}

impl DNSClientView {
    /// Where the resolution of `query` starts.
    ///
    /// A query without a question, or one flagged as a response, is refused.
    /// Without any server there is no response to wait for. Otherwise the
    /// first server is asked.
    pub open spec fn start(self, query: MessageView) -> ProgressView {
        if query.question is None || query.is_response() {
            ProgressView::Failed(Error::NoQuestion)
        } else if self.upstream_servers.len() == 0 {
            ProgressView::Failed(Error::NoResponse)
        } else {
            ProgressView::Pending(
                ResolutionView {
                    servers: self.upstream_servers,
                    local_v4: self.local_v4_addr,
                    local_v6: self.local_v6_addr,
                    force_tcp: self.force_tcp,
                    tid: query.tid(),
                    question: query.question->0,
                    wire: query.wire,
                    server: 0,
                    transport: first_transport(self.force_tcp),
                },
            )
        }
    }

    /// Where the resolution of the raw query `bytes` starts, and the
    /// transaction id to put back into the answer: with a mask, the query
    /// travels under the mask and the caller's own id is kept aside.
    pub open spec fn start_raw(self, bytes: Seq<u8>, mask: Option<u16>) -> (
        ProgressView,
        Option<u16>,
    ) {
        if !parses(bytes) {
            (ProgressView::Failed(Error::Codec), None)
        } else {
            match mask {
                None => (self.start(decoded(bytes)), None),
                Some(tid) => (self.start(decoded(bytes).with_tid(tid)), Some(wire_tid(bytes))),
            }
        }
    }

    /// Whether `progress` is where a lookup of the records of `kind` under
    /// `name` starts.
    ///
    /// The lookup is refused where the codec cannot encode the name, and
    /// fails for want of a response where there is no server. Otherwise the
    /// first server is asked a fresh query: the bytes that the codec makes of
    /// that name and kind, under whatever transaction id they start with,
    /// with exactly that name and kind for their question and not flagged as
    /// a response.
    pub open spec fn asks(self, progress: ProgressView, name: Seq<u8>, kind: RecordKind) -> bool {
        match query_name(name) {
            None => progress == ProgressView::Failed(Error::Codec),
            Some(encoded) => if self.upstream_servers.len() == 0 {
                progress == ProgressView::Failed(Error::NoResponse)
            } else {
                &&& progress matches ProgressView::Pending(state)
                &&& state.servers == self.upstream_servers
                &&& state.local_v4 == self.local_v4_addr
                &&& state.local_v6 == self.local_v6_addr
                &&& state.force_tcp == self.force_tcp
                &&& state.server == 0
                &&& state.transport == first_transport(self.force_tcp)
                &&& state.question == (QuestionView {
                    name: encoded,
                    rtype: kind.rtype,
                    class: kind.class,
                })
                &&& state.wire.len() >= HEADER_LEN
                &&& state.wire.skip(2) == query_body(name, kind.rtype, kind.class)
                &&& state.tid == wire_tid(state.wire)
                &&& !flagged_response(state.wire)
            },
        }
    }
}

impl View for DNSClient {
    type V = DNSClientView;

    closed spec fn view(&self) -> DNSClientView {
        DNSClientView {
            upstream_servers: self.upstream_servers@,
            timeout: self.backend.upstream_server_timeout,
            local_v4_addr: self.local_v4_addr,
            local_v6_addr: self.local_v6_addr,
            force_tcp: self.force_tcp,
        }
    }
}

/// Builds a query for records of the type and class called `rr_type` and
/// `rr_class` under `name`: the bytes that the codec makes of the three,
/// after a transaction id of the codec's choosing.
///
/// Fails with [`Error::Codec`] exactly where the codec knows no such type or
/// class or cannot encode the name.
pub fn build_query(name: &[u8], rr_type: &str, rr_class: &str) -> (built: Result<Message, Error>)
    ensures
        built is Ok <==> (type_code(rr_type@) is Some && class_code(rr_class@) is Some
            && query_name(name@) is Some),
        built matches Ok(query) ==> {
            &&& query@.wire.len() >= HEADER_LEN
            &&& query@.wire.skip(2) == query_body(
                name@,
                type_code(rr_type@)->0,
                class_code(rr_class@)->0,
            )
            &&& !query@.is_response()
            &&& query@.answers.len() == 0
            &&& query@.question == Some(
                QuestionView {
                    name: query_name(name@)->0,
                    rtype: type_code(rr_type@)->0,
                    class: class_code(rr_class@)->0,
                },
            )
        },
        built matches Err(e) ==> e == Error::Codec,
{
    match codec_build_query(name, rr_type, rr_class) {
        Some((wire, question)) => {
            match Message::from_parts(wire, Some(question), Vec::new()) {
                Some(query) => Ok(query),
                None => Err(Error::Codec),
            }
        },
        None => Err(Error::Codec),
    }
}

impl DNSClient {
    /// A client for `upstream_servers`, tried front to back, with a timeout
    /// of six seconds, wildcard local addresses, and UDP tried first.
    pub fn new(upstream_servers: Vec<UpstreamServer>) -> (client: DNSClient)
        ensures
            client@.upstream_servers == upstream_servers@,
            client@.timeout == whole_seconds(6),
            client@.local_v4_addr.ip is V4,
            client@.local_v4_addr.ip.octets() == Seq::new(4, |i: int| 0u8),
            client@.local_v4_addr.port == 0,
            client@.local_v6_addr.ip is V6,
            client@.local_v6_addr.ip.octets() == Seq::new(16, |i: int| 0u8),
            client@.local_v6_addr.port == 0,
            !client@.force_tcp,
    {
        DNSClient {
            backend: SyncBackend::new(duration_from_secs(6)),
            upstream_servers,
            local_v4_addr: SocketAddress::new(IpAddress::unspecified_v4(), 0),
            local_v6_addr: SocketAddress::new(IpAddress::unspecified_v6(), 0),
            force_tcp: false,
        }
    }

    /// Sets the time allowed for each exchange.
    pub fn set_timeout(&mut self, timeout: Duration)
        ensures
            final(self)@ == (DNSClientView { timeout, ..old(self)@ }),
    {
        self.backend.upstream_server_timeout = timeout
    }

    /// Sets the local address for exchanges with IPv4 servers.
    pub fn set_local_v4_addr(&mut self, addr: SocketAddress)
        ensures
            final(self)@ == (DNSClientView { local_v4_addr: addr, ..old(self)@ }),
    {
        self.local_v4_addr = addr
    }

    /// Sets the local address for exchanges with IPv6 servers.
    pub fn set_local_v6_addr(&mut self, addr: SocketAddress)
        ensures
            final(self)@ == (DNSClientView { local_v6_addr: addr, ..old(self)@ }),
    {
        self.local_v6_addr = addr
    }

    /// Chooses whether every exchange goes over TCP, without trying UDP.
    pub fn force_tcp(&mut self, force_tcp: bool)
        ensures
            final(self)@ == (DNSClientView { force_tcp, ..old(self)@ }),
    {
        self.force_tcp = force_tcp;
    }

    /// Starts the resolution of `query`.
    ///
    /// A query without a question, or one flagged as a response, is refused
    /// with [`Error::NoQuestion`] before any server is consulted.
    pub fn resolve(&self, query: Message) -> (progress: Progress)
        ensures
            progress@ == self@.start(query@),
    {
        let tid = query.tid();
        let response = query.is_response();
        let (wire, question, _) = query.into_parts();
        match question {
            Some(question) => {
                if response {
                    Progress::Failed(Error::NoQuestion)
                } else {
                    Resolution::begin(
                        &self.upstream_servers,
                        self.local_v4_addr,
                        self.local_v6_addr,
                        self.force_tcp,
                        tid,
                        question,
                        wire,
                    )
                }
            },
            None => Progress::Failed(Error::NoQuestion),
        }
    }

    /// Starts the resolution of a query that the caller encoded, under the
    /// transaction id `mask` where one is given.
    ///
    /// Bytes that the codec rejects fail with [`Error::Codec`]. With a mask,
    /// the second component is the caller's own transaction id, to be put
    /// back by [`DNSClient::raw_response`].
    pub fn query_raw_with(&self, query: Vec<u8>, mask: Option<u16>) -> (started: (
        Progress,
        Option<u16>,
    ))
        ensures
            (started.0@, started.1) == self@.start_raw(query@, mask),
    {
        match Message::decode(query) {
            Err(e) => (Progress::Failed(e), None),
            Ok(message) => {
                let mut message = message;
                match mask {
                    None => (self.resolve(message), None),
                    Some(tid) => {
                        let caller_tid = message.tid();
                        message.set_tid(tid);
                        (self.resolve(message), Some(caller_tid))
                    },
                }
            },
        }
    }

    /// Starts the resolution of a query that the caller encoded.
    ///
    /// With `tid_masking`, the query travels under a transaction id drawn at
    /// random, and the second component is the caller's own id, to be put
    /// back by [`DNSClient::raw_response`].
    pub fn query_raw(&self, query: &[u8], tid_masking: bool) -> (started: (Progress, Option<u16>))
        ensures
            !tid_masking ==> (started.0@, started.1) == self@.start_raw(query@, None),
            tid_masking ==> exists|mask: u16|
                (started.0@, started.1) == #[trigger] self@.start_raw(query@, Some(mask)),
    {
        let bytes = vstd::slice::slice_to_vec(query);
        if tid_masking {
            let mask = random_tid();
            let started = self.query_raw_with(bytes, Some(mask));
            assert((started.0@, started.1) == self@.start_raw(query@, Some(mask)));
            started
        } else {
            self.query_raw_with(bytes, None)
        }
    }

    /// The bytes to hand back for a raw query: those of `answer`, with
    /// `caller_tid` as the transaction id where masking was applied.
    pub fn raw_response(answer: Message, caller_tid: Option<u16>) -> (bytes: Vec<u8>)
        ensures
            bytes@ == raw_response_of(answer@, caller_tid),
    {
        let mut answer = answer;
        match caller_tid {
            Some(tid) => {
                answer.set_tid(tid);
            },
            None => {},
        }
        answer.into_wire()
    }

    /// Starts a lookup of the records under `name` whose class and type go by
    /// the names `rr_class` and `rr_type`.
    fn query_kind(&self, name: &[u8], rr_class: &str, rr_type: &str) -> (progress: Progress)
        ensures
            class_code(rr_class@) is None || type_code(rr_type@) is None ==> progress@
                == ProgressView::Failed(Error::Codec),
            class_code(rr_class@) is Some && type_code(rr_type@) is Some ==> self@.asks(
                progress@,
                name@,
                RecordKind { class: class_code(rr_class@)->0, rtype: type_code(rr_type@)->0 },
            ),
            spells(rr_type@, seq!['A']) ==> type_code(rr_type@) == Some(TYPE_A),
            spells(rr_type@, seq!['P', 'T', 'R']) ==> type_code(rr_type@) == Some(TYPE_PTR),
            spells(rr_type@, seq!['T', 'X', 'T']) ==> type_code(rr_type@) == Some(TYPE_TXT),
            spells(rr_type@, seq!['A', 'A', 'A', 'A']) ==> type_code(rr_type@) == Some(TYPE_AAAA),
    {
        let class = codec_class_code(rr_class);
        let rtype = codec_type_code(rr_type);
        if class.is_none() || rtype.is_none() {
            return Progress::Failed(Error::Codec);
        }
        match build_query(name, rr_type, rr_class) {
            Ok(query) => self.resolve(query),
            Err(e) => Progress::Failed(e),
        }
    }

    /// Starts a lookup of the IPv4 addresses of `name`: a query for its `A`
    /// records in class `IN`.
    pub fn query_a(&self, name: &str) -> (progress: Progress)
        ensures
            self@.asks(
                progress@,
                name.spec_bytes(),
                RecordKind { class: CLASS_IN, rtype: TYPE_A },
            ),
    {
        proof {
            reveal_strlit("A");
            reveal_strlit("IN");
        }
        self.query_kind(name.as_bytes(), "IN", "A")
    }

    /// Starts a lookup of the IPv6 addresses of `name`: a query for its
    /// `AAAA` records in class `IN`.
    pub fn query_aaaa(&self, name: &str) -> (progress: Progress)
        ensures
            self@.asks(
                progress@,
                name.spec_bytes(),
                RecordKind { class: CLASS_IN, rtype: TYPE_AAAA },
            ),
    {
        proof {
            reveal_strlit("AAAA");
            reveal_strlit("IN");
        }
        self.query_kind(name.as_bytes(), "IN", "AAAA")
    }

    /// Starts a lookup of all addresses of `name`: one query for its `A`
    /// records and one for its `AAAA` records, which may be resolved one
    /// after the other or at the same time. What the two outcomes amount to
    /// is for [`addresses_of`](crate::answers::addresses_of) to say.
    pub fn query_addrs(&self, name: &str) -> (progress: (Progress, Progress))
        ensures
            self@.asks(
                progress.0@,
                name.spec_bytes(),
                RecordKind { class: CLASS_IN, rtype: TYPE_A },
            ),
            self@.asks(
                progress.1@,
                name.spec_bytes(),
                RecordKind { class: CLASS_IN, rtype: TYPE_AAAA },
            ),
    {
        (self.query_a(name), self.query_aaaa(name))
    }

    /// Starts a lookup of the texts of `name`: a query for its `TXT` records
    /// in class `IN`.
    pub fn query_txt(&self, name: &str) -> (progress: Progress)
        ensures
            self@.asks(
                progress@,
                name.spec_bytes(),
                RecordKind { class: CLASS_IN, rtype: TYPE_TXT },
            ),
    {
        proof {
            reveal_strlit("TXT");
            reveal_strlit("IN");
        }
        self.query_kind(name.as_bytes(), "IN", "TXT")
    }

    /// Starts a reverse lookup of `ip`: a query for the `PTR` records, in
    /// class `IN`, of the name that stands for the address under
    /// `in-addr.arpa` or `ip6.arpa`.
    pub fn query_ptr(&self, ip: &IpAddress) -> (progress: Progress)
        ensures
            self@.asks(
                progress@,
                reverse_name_of(*ip),
                RecordKind { class: CLASS_IN, rtype: TYPE_PTR },
            ),
    {
        proof {
            reveal_strlit("PTR");
            reveal_strlit("IN");
        }
        let name = reverse_name(ip);
        self.query_kind(name.as_slice(), "IN", "PTR")
    }

    /// Starts a lookup of the records under `name` whose class and type go
    /// by the names `query_class` and `query_type`, such as `IN` and `MX`.
    ///
    /// A class or type that the codec does not know fails the lookup with
    /// [`Error::Codec`], as does a name that it cannot encode.
    pub fn query_rrs_data(&self, name: &str, query_class: &str, query_type: &str) -> (progress:
        Progress)
        ensures
            class_code(query_class@) is None || type_code(query_type@) is None ==> progress@
                == ProgressView::Failed(Error::Codec),
            class_code(query_class@) is Some && type_code(query_type@) is Some ==> self@.asks(
                progress@,
                name.spec_bytes(),
                RecordKind {
                    class: class_code(query_class@)->0,
                    rtype: type_code(query_type@)->0,
                },
            ),
    {
        self.query_kind(name.as_bytes(), query_class, query_type)
    }

    /// The upstream servers, in failover order.
    pub fn upstream_servers(&self) -> (servers: &Vec<UpstreamServer>)
        ensures
            servers@ == self@.upstream_servers,
    {
        &self.upstream_servers
    }

    /// The time allowed for each exchange.
    pub fn timeout(&self) -> (timeout: Duration)
        ensures
            timeout == self@.timeout,
    {
        self.backend.upstream_server_timeout
    }

    /// The local address for exchanges with IPv4 servers.
    pub fn local_v4_addr(&self) -> (addr: SocketAddress)
        ensures
            addr == self@.local_v4_addr,
    {
        self.local_v4_addr
    }

    /// The local address for exchanges with IPv6 servers.
    pub fn local_v6_addr(&self) -> (addr: SocketAddress)
        ensures
            addr == self@.local_v6_addr,
    {
        self.local_v6_addr
    }

    /// Whether every exchange goes over TCP.
    pub fn forces_tcp(&self) -> (force_tcp: bool)
        ensures
            force_tcp == self@.force_tcp,
    {
        self.force_tcp
    }
}

/// A resolution never hands out a mismatched message: whatever the servers
/// send, the message it ends with carries the transaction id and the
/// question of the query that was resolved.
pub proof fn law_resolve_never_mismatches(
    client: DNSClientView,
    query: MessageView,
    replies: Seq<Option<MessageView>>,
)
    requires
        client.start(query) is Pending,
    ensures
        query.question is Some,
        !query.is_response(),
        run(client.start(query)->Pending_0, replies) matches ProgressView::Answer(answer)
            ==> answer.tid() == query.tid() && answer.question == query.question,
{
    crate::engine::law_answer_matches_query(client.start(query)->Pending_0, replies);
}

/// Masking is transparent: the query travels under the mask, only a reply
/// that carries the mask is accepted, and the bytes handed back carry the
/// transaction id of the bytes that the caller passed in.
pub proof fn law_masking_is_transparent(
    client: DNSClientView,
    query: Seq<u8>,
    mask: u16,
    replies: Seq<Option<MessageView>>,
)
    requires
        query.len() >= HEADER_LEN,
        client.start_raw(query, Some(mask)).0 is Pending,
    ensures
        client.start_raw(query, Some(mask)).1 == Some(wire_tid(query)),
        wire_tid(client.start_raw(query, Some(mask)).0->Pending_0.wire) == mask,
        run(client.start_raw(query, Some(mask)).0->Pending_0, replies) matches ProgressView::Answer(
            answer,
        ) ==> answer.wire.len() >= HEADER_LEN ==> {
            &&& answer.tid() == mask
            &&& wire_tid(raw_response_of(answer, client.start_raw(query, Some(mask)).1))
                == wire_tid(query)
        },
{
    crate::engine::law_answer_matches_query(
        client.start_raw(query, Some(mask)).0->Pending_0,
        replies,
    );
}

} // verus!
