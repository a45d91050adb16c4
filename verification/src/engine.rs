//! The resolution engine: one query against an ordered list of servers.
//!
//! The engine performs no I/O. It names the exchange to perform, is handed
//! what came back, and decides what happens next.

use vstd::prelude::*;
use crate::address::SocketAddress;
use crate::codec::parses;
use crate::error::{Error, TransportError};
use crate::message::{Message, MessageView, decoded};
use crate::record::{Question, QuestionView};
use crate::upstream_server::UpstreamServer;

verus! {

/// How a query travels to a server.
#[derive(Clone, Copy, Debug, PartialEq, Eq, Structural)]
pub enum Transport {
    Udp,
    Tcp,
}

/// One exchange with one server: send the query, wait for one reply.
#[derive(Clone, Copy, Debug, PartialEq, Eq)]
pub struct Exchange {
    /// The server to contact.
    pub server: UpstreamServer,
    /// The local address to bind to, of the server's address family.
    pub local: SocketAddress,
    /// The transport to use.
    pub transport: Transport,
}

/// A resolution in flight: a validated query, the servers to try, and the
/// exchange whose reply is awaited.
#[derive(Debug)]
pub struct Resolution {
    servers: Vec<UpstreamServer>,
    local_v4: SocketAddress,
    local_v6: SocketAddress,
    force_tcp: bool,
    tid: u16,
    question: Question,
    wire: Vec<u8>,
    server: usize,
    transport: Transport,
}

/// The mathematical value of a [`Resolution`].
pub struct ResolutionView {
    /// The upstream servers, in failover order.
    pub servers: Seq<UpstreamServer>,
    /// The local address for exchanges with IPv4 servers.
    pub local_v4: SocketAddress,
    /// The local address for exchanges with IPv6 servers.
    pub local_v6: SocketAddress,
    /// Whether UDP is skipped.
    pub force_tcp: bool,
    /// The transaction id of the query.
    pub tid: u16,
    /// The question of the query.
    pub question: QuestionView,
    /// The bytes of the query.
    pub wire: Seq<u8>,
    /// The position of the server whose reply is awaited.
    pub server: int,
    /// The transport of the exchange whose reply is awaited.
    pub transport: Transport,
}

/// Where a resolution stands after a step.
#[derive(Debug)]
pub enum Progress {
    /// Another exchange is due.
    Pending(Resolution),
    /// A server gave a reply that answers the query.
    Answer(Message),
    /// The resolution ended without an answer.
    Failed(Error),
}

/// The mathematical value of a [`Progress`].
pub enum ProgressView {
    Pending(ResolutionView),
    Answer(MessageView),
    Failed(Error),
}

/// What the reply to one exchange amounts to.
pub enum Verdict {
    /// The reply answers the query.
    Accept,
    /// The reply was cut short: ask the same server again over TCP.
    Escalate,
    /// The server failed: move on.
    Reject,
}

/// The transport of the first exchange with each server.
pub open spec fn first_transport(force_tcp: bool) -> Transport {
    if force_tcp {
        Transport::Tcp
    } else {
        Transport::Udp
    }
}

/// What a transport hands back, as the codec reads it: the decoded message,
/// or nothing where the exchange failed or the bytes do not parse.
pub open spec fn reply_view(reply: Result<Vec<u8>, TransportError>) -> Option<MessageView> {
    match reply {
        Ok(bytes) => if parses(bytes@) {
            Some(decoded(bytes@))
        } else {
            None
        },
        Err(_) => None,
    }
}

impl ResolutionView {
    /// A server's reply is awaited, and UDP is not in use where it is skipped.
    pub open spec fn well_formed(self) -> bool {
        &&& 0 <= self.server < self.servers.len()
        &&& self.force_tcp ==> self.transport == Transport::Tcp
    }

    /// The exchange whose reply is awaited.
    pub open spec fn exchange(self) -> Exchange {
        let server = self.servers[self.server];
        Exchange {
            server,
            local: if server.addr.ip is V4 {
                self.local_v4
            } else {
                self.local_v6
            },
            transport: self.transport,
        }
    }

    /// Whether `response` carries the query's transaction id and question.
    pub open spec fn answered_by(self, response: MessageView) -> bool {
        response.tid() == self.tid && response.question == Some(self.question)
    }

    /// What `reply` amounts to for the exchange that is awaited.
    pub open spec fn verdict(self, reply: Option<MessageView>) -> Verdict {
        match reply {
            None => Verdict::Reject,
            Some(response) => if self.transport == Transport::Udp && response.is_truncated() {
                Verdict::Escalate
            } else if self.answered_by(response) {
                Verdict::Accept
            } else {
                Verdict::Reject
            },
        }
    }

    /// The first exchange with the server at `position`.
    pub open spec fn at_server(self, position: int) -> ResolutionView {
        ResolutionView {
            server: position,
            transport: first_transport(self.force_tcp),
            ..self
        }
    }

    /// The same server again, over TCP.
    pub open spec fn over_tcp(self) -> ResolutionView {
        ResolutionView { transport: Transport::Tcp, ..self }
    }

    /// Where the resolution stands once the awaited server has failed.
    pub open spec fn after_failure(self) -> ProgressView {
        if self.server + 1 < self.servers.len() {
            ProgressView::Pending(self.at_server(self.server + 1))
        } else {
            ProgressView::Failed(Error::NoResponse)
        }
    }

    /// Where the resolution stands once `reply` has come back.
    pub open spec fn step(self, reply: Option<MessageView>) -> ProgressView {
        match self.verdict(reply) {
            Verdict::Accept => ProgressView::Answer(reply->0),
            Verdict::Escalate => ProgressView::Pending(self.over_tcp()),
            Verdict::Reject => self.after_failure(),
        }
    }
}

impl View for Resolution {
    type V = ResolutionView;

    closed spec fn view(&self) -> ResolutionView {
        ResolutionView {
            servers: self.servers@,
            local_v4: self.local_v4,
            local_v6: self.local_v6,
            force_tcp: self.force_tcp,
            tid: self.tid,
            question: self.question@,
            wire: self.wire@,
            server: self.server as int,
            transport: self.transport,
        }
    }
}

impl View for Progress {
    type V = ProgressView;

    open spec fn view(&self) -> ProgressView {
        match self {
            Progress::Pending(resolution) => ProgressView::Pending(resolution@),
            Progress::Answer(message) => ProgressView::Answer(message@),
            Progress::Failed(error) => ProgressView::Failed(*error),
        }
    }
}

impl Resolution {
    #[verifier::type_invariant]
    spec fn awaits_a_reply(self) -> bool {
        self@.well_formed()
    }

    /// Starts a resolution of a query that has a question with the first of
    /// `servers`, or fails where there is none.
    pub(crate) fn begin(
        servers: &Vec<UpstreamServer>,
        local_v4: SocketAddress,
        local_v6: SocketAddress,
        force_tcp: bool,
        tid: u16,
        question: Question,
        wire: Vec<u8>,
    ) -> (progress: Progress)
        ensures
            servers@.len() == 0 ==> progress@ == ProgressView::Failed(Error::NoResponse),
            servers@.len() > 0 ==> progress@ == ProgressView::Pending(
                ResolutionView {
                    servers: servers@,
                    local_v4,
                    local_v6,
                    force_tcp,
                    tid,
                    question: question@,
                    wire: wire@,
                    server: 0,
                    transport: first_transport(force_tcp),
                },
            ),
    {
        if servers.len() == 0 {
            return Progress::Failed(Error::NoResponse);
        }
        let mut copy: Vec<UpstreamServer> = Vec::new();
        let mut i: usize = 0;
        while i < servers.len()
            invariant
                i <= servers@.len(),
                copy@ == servers@.subrange(0, i as int),
            decreases servers@.len() - i,
        {
            copy.push(servers[i]);
            i += 1;
        }
        assert(copy@ == servers@);
        let transport = if force_tcp {
            Transport::Tcp
        } else {
            Transport::Udp
        };
        Progress::Pending(
            Resolution {
                servers: copy,
                local_v4,
                local_v6,
                force_tcp,
                tid,
                question,
                wire,
                server: 0,
                transport,
            },
        )
    }

    /// The exchange to perform next.
    pub fn exchange(&self) -> (exchange: Exchange)
        ensures
            self@.well_formed(),
            exchange == self@.exchange(),
    {
        proof {
            use_type_invariant(self);
        }
        let server = self.servers[self.server];
        let local = if server.addr.is_v4() {
            self.local_v4
        } else {
            self.local_v6
        };
        Exchange { server, local, transport: self.transport }
    }

    /// The bytes of the query, to be sent in every exchange.
    pub fn query(&self) -> (wire: &Vec<u8>)
        ensures
            wire@ == self@.wire,
    {
        &self.wire
    }

    /// Checks a decoded reply against the query: it must carry the query's
    /// transaction id and question.
    pub fn validate(&self, response: Message) -> (checked: Result<Message, Error>)
        ensures
            checked is Ok <==> self@.answered_by(response@),
            checked matches Ok(m) ==> m@ == response@,
            checked matches Err(e) ==> e == Error::UnexpectedResponse,
    {
        let matches = response.tid() == self.tid && match response.question() {
            Some(question) => question.same(&self.question),
            None => false,
        };
        if matches {
            Ok(response)
        } else {
            Err(Error::UnexpectedResponse)
        }
    }

    /// Moves on after the awaited server has failed.
    fn fail_over(self) -> (progress: Progress)
        ensures
            progress@ == self@.after_failure(),
    {
        proof {
            use_type_invariant(&self);
            assert(self@.well_formed());
        }
        if self.server < self.servers.len() - 1 {
            let mut next = self;
            next.server = next.server + 1;
            next.transport = if next.force_tcp {
                Transport::Tcp
            } else {
                Transport::Udp
            };
            Progress::Pending(next)
        } else {
            Progress::Failed(Error::NoResponse)
        }
    }

    /// Takes the decoded reply to the awaited exchange, or `None` where the
    /// exchange failed or its bytes did not parse, and says what is next.
    ///
    /// A truncated reply over UDP sends the same server the query again over
    /// TCP. A reply that carries the query's transaction id and question is
    /// the answer. Anything else counts as this server's failure: the next
    /// server is tried, and after the last one the resolution fails.
    pub fn advance_with(self, reply: Option<Message>) -> (progress: Progress)
        ensures
            progress@ == self@.step(
                match reply {
                    Some(m) => Some(m@),
                    None => None,
                },
            ),
    {
        proof {
            use_type_invariant(&self);
        }
        match reply {
            None => self.fail_over(),
            Some(response) => {
                if self.transport == Transport::Udp && response.is_truncated() {
                    let mut again = self;
                    again.transport = Transport::Tcp;
                    Progress::Pending(again)
                } else {
                    match self.validate(response) {
                        Ok(answer) => Progress::Answer(answer),
                        Err(_) => self.fail_over(),
                    }
                }
            },
        }
    }

    /// Takes what the awaited exchange produced and says what is next.
    ///
    /// Bytes are decoded first; a transport failure and bytes that do not
    /// parse both count as this server's failure.
    pub fn advance(self, reply: Result<Vec<u8>, TransportError>) -> (progress: Progress)
        ensures
            progress@ == self@.step(reply_view(reply)),
    {
        let decoded = match reply {
            Ok(bytes) => match Message::decode(bytes) {
                Ok(message) => Some(message),
                Err(_) => None,
            },
            Err(_) => None,
        };
        self.advance_with(decoded)
    }
}

/// Where a resolution stands after `replies` have come back, one for each
/// exchange in turn. Replies left over once the resolution has ended are
/// never asked for.
pub open spec fn run(state: ResolutionView, replies: Seq<Option<MessageView>>) -> ProgressView
    decreases replies.len(),
{
    if replies.len() == 0 {
        ProgressView::Pending(state)
    } else {
        match state.step(replies[0]) {
            ProgressView::Pending(next) => run(next, replies.skip(1)),
            ended => ended,
        }
    }
}

/// The exchanges that a resolution performs while `replies` come back: the
/// position of each server contacted and the transport used, in order.
pub open spec fn consulted(state: ResolutionView, replies: Seq<Option<MessageView>>) -> Seq<
    (int, Transport),
>
    decreases replies.len(),
{
    if replies.len() == 0 {
        Seq::empty()
    } else {
        seq![(state.server, state.transport)] + (match state.step(replies[0]) {
            ProgressView::Pending(next) => consulted(next, replies.skip(1)),
            _ => Seq::empty(),
        })
    }
}

/// One exchange with each of `count` servers from `first` on, in order.
pub open spec fn one_each(first: int, count: nat, transport: Transport) -> Seq<(int, Transport)> {
    Seq::new(count, |k: int| (first + k, transport))
}

/// A resolution hands out a message only if that message carries the
/// query's transaction id and question, whatever the servers send.
pub proof fn law_answer_matches_query(state: ResolutionView, replies: Seq<Option<MessageView>>)
    ensures
        run(state, replies) matches ProgressView::Answer(answer) ==> answer.tid() == state.tid
            && answer.question == Some(state.question),
    decreases replies.len(),
{
    if replies.len() > 0 {
        match state.step(replies[0]) {
            ProgressView::Pending(next) => {
                law_answer_matches_query(next, replies.skip(1));
            },
            _ => {},
        }
    }
}

/// A resolution that fails does so with "no response", never with the
/// failure of one server.
pub proof fn law_failure_is_no_response(state: ResolutionView, replies: Seq<Option<MessageView>>)
    ensures
        run(state, replies) matches ProgressView::Failed(error) ==> error == Error::NoResponse,
    decreases replies.len(),
{
    if replies.len() > 0 {
        match state.step(replies[0]) {
            ProgressView::Pending(next) => {
                law_failure_is_no_response(next, replies.skip(1));
            },
            _ => {},
        }
    }
}

/// While servers fail one after another, they are consulted front to back,
/// each once: after `failures.len()` failures the next server in line is
/// asked, or, past the last server, the resolution has failed with "no
/// response".
pub proof fn law_failover_in_order(state: ResolutionView, failures: Seq<Option<MessageView>>)
    requires
        state.well_formed(),
        state.transport == first_transport(state.force_tcp),
        state.server + failures.len() <= state.servers.len(),
        forall|i: int|
            0 <= i < failures.len() ==> state.verdict(#[trigger] failures[i]) is Reject,
    ensures
        state.server + failures.len() < state.servers.len() ==> run(state, failures)
            == ProgressView::Pending(state.at_server(state.server + failures.len())),
        state.server + failures.len() == state.servers.len() ==> run(state, failures)
            == ProgressView::Failed(Error::NoResponse),
        consulted(state, failures) == one_each(state.server, failures.len(), state.transport),
    decreases failures.len(),
{
    if failures.len() == 0 {
        assert(state.at_server(state.server) == state);
        assert(consulted(state, failures) =~= one_each(state.server, 0, state.transport));
    } else {
        let rest = failures.skip(1);
        assert(state.verdict(failures[0]) is Reject);
        if state.server + 1 < state.servers.len() {
            let next = state.at_server(state.server + 1);
            assert forall|i: int| 0 <= i < rest.len() implies next.verdict(
                #[trigger] rest[i],
            ) is Reject by {
                assert(rest[i] == failures[i + 1]);
                assert(state.verdict(failures[i + 1]) is Reject);
            }
            law_failover_in_order(next, rest);
            assert(next.at_server(next.server + rest.len()) == state.at_server(
                state.server + failures.len(),
            ));
            assert(consulted(state, failures) =~= one_each(
                state.server,
                failures.len(),
                state.transport,
            ));
        } else {
            assert(rest.len() == 0);
            assert(consulted(state, failures) =~= one_each(
                state.server,
                failures.len(),
                state.transport,
            ));
        }
    }
}

/// When the servers ahead in line fail and the next one gives a reply that
/// answers the query, that reply is the result, and no server after it is
/// consulted, whatever replies might still be on offer.
pub proof fn law_first_success_wins(
    state: ResolutionView,
    failures: Seq<Option<MessageView>>,
    answer: MessageView,
    unasked: Seq<Option<MessageView>>,
)
    requires
        state.well_formed(),
        state.transport == first_transport(state.force_tcp),
        state.server + failures.len() < state.servers.len(),
        forall|i: int|
            0 <= i < failures.len() ==> state.verdict(#[trigger] failures[i]) is Reject,
        state.verdict(Some(answer)) is Accept,
    ensures
        run(state, failures + seq![Some(answer)] + unasked) == ProgressView::Answer(answer),
        consulted(state, failures + seq![Some(answer)] + unasked) == one_each(
            state.server,
            failures.len() + 1,
            state.transport,
        ),
    decreases failures.len(),
{
    let replies = failures + seq![Some(answer)] + unasked;
    if failures.len() == 0 {
        assert(replies[0] == Some(answer));
        assert(consulted(state, replies) =~= one_each(state.server, 1, state.transport));
    } else {
        let rest = failures.skip(1);
        let next = state.at_server(state.server + 1);
        assert(replies[0] == failures[0]);
        assert(state.verdict(failures[0]) is Reject);
        assert(replies.skip(1) =~= rest + seq![Some(answer)] + unasked);
        assert forall|i: int| 0 <= i < rest.len() implies next.verdict(
            #[trigger] rest[i],
        ) is Reject by {
            assert(rest[i] == failures[i + 1]);
            assert(state.verdict(failures[i + 1]) is Reject);
        }
        law_first_success_wins(next, rest, answer, unasked);
        assert(consulted(state, replies) =~= one_each(
            state.server,
            failures.len() + 1,
            state.transport,
        ));
    }
}

/// When every server fails, the resolution fails with "no response" after
/// each server has been consulted once, front to back.
pub proof fn law_exhaustion(state: ResolutionView, failures: Seq<Option<MessageView>>)
    requires
        state.well_formed(),
        state.transport == first_transport(state.force_tcp),
        state.server + failures.len() == state.servers.len(),
        forall|i: int|
            0 <= i < failures.len() ==> state.verdict(#[trigger] failures[i]) is Reject,
    ensures
        run(state, failures) == ProgressView::Failed(Error::NoResponse),
        consulted(state, failures) == one_each(state.server, failures.len(), state.transport),
{
    law_failover_in_order(state, failures);
}

/// A truncated reply over UDP is followed by exactly one exchange over TCP
/// with the same server: the reply to that exchange either is the answer,
/// where it carries the query's transaction id and question, or ends the
/// dealings with this server.
pub proof fn law_truncation_retries_over_tcp(
    state: ResolutionView,
    truncated: MessageView,
    second: Option<MessageView>,
)
    requires
        state.well_formed(),
        state.transport == Transport::Udp,
        truncated.is_truncated(),
    ensures
        state.step(Some(truncated)) == ProgressView::Pending(state.over_tcp()),
        state.over_tcp().server == state.server,
        state.over_tcp().transport == Transport::Tcp,
        second is Some && state.answered_by(second->0) ==> state.over_tcp().step(second)
            == ProgressView::Answer(second->0),
        !(second is Some && state.answered_by(second->0)) ==> state.over_tcp().step(second)
            == state.after_failure(),
        state.over_tcp().step(second) matches ProgressView::Pending(next) ==> next.server
            == state.server + 1,
{
}

/// The most exchanges that a resolution can still ask for. Where UDP is
/// skipped, that is one with each server that is left; otherwise two with
/// each, less the one over UDP that is already behind.
pub open spec fn exchanges_left(state: ResolutionView) -> int {
    if state.force_tcp {
        state.servers.len() - state.server
    } else {
        2 * (state.servers.len() - state.server) - (if state.transport == Transport::Tcp {
            1int
        } else {
            0int
        })
    }
}

/// Whether, while `replies` come back, one of the exchanges that take place
/// gets a reply that is accepted.
pub open spec fn accepted(state: ResolutionView, replies: Seq<Option<MessageView>>) -> bool
    decreases replies.len(),
{
    replies.len() > 0 && (state.verdict(replies[0]) is Accept || (match state.step(replies[0]) {
        ProgressView::Pending(next) => accepted(next, replies.skip(1)),
        _ => false,
    }))
}

/// Whether the exchange `later` may come right after the exchange
/// `earlier`: it is the first exchange with the next server in line, or the
/// same server asked again over TCP after UDP.
pub open spec fn follows(
    earlier: (int, Transport),
    later: (int, Transport),
    force_tcp: bool,
) -> bool {
    ||| later.0 == earlier.0 + 1 && later.1 == first_transport(force_tcp)
    ||| later.0 == earlier.0 && earlier.1 == Transport::Udp && later.1 == Transport::Tcp
}

/// Replies that come back one after another take a resolution as far as
/// the first of them do, and from there as far as the rest do.
pub proof fn lemma_run_in_two_parts(
    state: ResolutionView,
    first: Seq<Option<MessageView>>,
    rest: Seq<Option<MessageView>>,
)
    ensures
        run(state, first + rest) == (match run(state, first) {
            ProgressView::Pending(middle) => run(middle, rest),
            ended => ended,
        }),
        consulted(state, first + rest) == consulted(state, first) + (match run(state, first) {
            ProgressView::Pending(middle) => consulted(middle, rest),
            _ => Seq::empty(),
        }),
    decreases first.len(),
{
    if first.len() == 0 {
        assert(first + rest =~= rest);
        assert(consulted(state, first) + consulted(state, rest) =~= consulted(state, rest));
    } else {
        let all = first + rest;
        assert(all[0] == first[0]);
        assert(all.skip(1) =~= first.skip(1) + rest);
        match state.step(first[0]) {
            ProgressView::Pending(next) => {
                lemma_run_in_two_parts(next, first.skip(1), rest);
                let tail = match run(state, first) {
                    ProgressView::Pending(middle) => consulted(middle, rest),
                    _ => Seq::empty(),
                };
                assert(consulted(state, all) =~= consulted(state, first) + tail);
            },
            _ => {
                assert(consulted(state, all) =~= consulted(state, first) + Seq::<
                    (int, Transport),
                >::empty());
            },
        }
    }
}

/// Once a server gives a reply that answers the query, that reply is the
/// result and no further exchange takes place, whatever came before and
/// whatever replies might still be on offer.
pub proof fn law_nothing_after_the_answer(
    state: ResolutionView,
    before: Seq<Option<MessageView>>,
    answer: MessageView,
    unasked: Seq<Option<MessageView>>,
)
    requires
        run(state, before) is Pending,
        run(state, before)->Pending_0.verdict(Some(answer)) is Accept,
    ensures
        run(state, before + seq![Some(answer)] + unasked) == ProgressView::Answer(answer),
        consulted(state, before + seq![Some(answer)] + unasked) == consulted(state, before).push(
            (run(state, before)->Pending_0.server, run(state, before)->Pending_0.transport),
        ),
{
    let middle = run(state, before)->Pending_0;
    let tail = seq![Some(answer)] + unasked;
    assert(before + seq![Some(answer)] + unasked =~= before + tail);
    lemma_run_in_two_parts(state, before, tail);
    assert(tail[0] == Some(answer));
    assert(consulted(middle, tail) =~= seq![(middle.server, middle.transport)]);
    assert(consulted(state, before) + consulted(middle, tail) =~= consulted(state, before).push(
        (middle.server, middle.transport),
    ));
}

/// A resolution performs no more exchanges than [`exchanges_left`] allows:
/// at most one with each server where UDP is skipped, at most two with each
/// otherwise.
pub proof fn law_exchanges_are_bounded(state: ResolutionView, replies: Seq<Option<MessageView>>)
    requires
        state.well_formed(),
    ensures
        consulted(state, replies).len() <= exchanges_left(state),
        consulted(state, replies).len() <= replies.len(),
        state.force_tcp ==> consulted(state, replies).len() <= state.servers.len() - state.server,
    decreases replies.len(),
{
    if replies.len() > 0 {
        match state.step(replies[0]) {
            ProgressView::Pending(next) => {
                law_exchanges_are_bounded(next, replies.skip(1));
            },
            _ => {},
        }
    }
}

/// A resolution ends: once as many replies have come back as
/// [`exchanges_left`] allows exchanges, it asks for no further one.
pub proof fn law_resolution_ends(state: ResolutionView, replies: Seq<Option<MessageView>>)
    requires
        state.well_formed(),
        replies.len() >= exchanges_left(state),
    ensures
        !(run(state, replies) is Pending),
    decreases replies.len(),
{
    if replies.len() > 0 {
        match state.step(replies[0]) {
            ProgressView::Pending(next) => {
                law_resolution_ends(next, replies.skip(1));
            },
            _ => {},
        }
    }
}

/// Without a reply that carries the query's transaction id and question
/// there is no answer.
pub proof fn law_no_match_no_answer(state: ResolutionView, replies: Seq<Option<MessageView>>)
    requires
        forall|i: int|
            0 <= i < replies.len() ==> ((#[trigger] replies[i]) matches Some(reply)
                ==> !state.answered_by(reply)),
    ensures
        !(run(state, replies) is Answer),
    decreases replies.len(),
{
    if replies.len() > 0 {
        match state.step(replies[0]) {
            ProgressView::Pending(next) => {
                let rest = replies.skip(1);
                assert forall|i: int| 0 <= i < rest.len() implies (
                    (#[trigger] rest[i]) matches Some(reply) ==> !next.answered_by(reply)
                ) by {
                    assert(rest[i] == replies[i + 1]);
                }
                law_no_match_no_answer(next, rest);
            },
            _ => {},
        }
    }
}

/// A resolution ends with an answer exactly when one of its exchanges gets
/// a reply that is accepted.
pub proof fn law_answer_iff_accepted(state: ResolutionView, replies: Seq<Option<MessageView>>)
    ensures
        run(state, replies) is Answer <==> accepted(state, replies),
    decreases replies.len(),
{
    if replies.len() > 0 {
        match state.step(replies[0]) {
            ProgressView::Pending(next) => {
                law_answer_iff_accepted(next, replies.skip(1));
            },
            _ => {},
        }
    }
}

/// When no exchange is accepted, be it that exchanges fail, that replies do
/// not parse or do not match, or that a reply over UDP is cut short and the
/// exchange over TCP that follows it fails, the resolution fails with "no
/// response" once the servers are used up.
pub proof fn law_all_failing_is_no_response(
    state: ResolutionView,
    replies: Seq<Option<MessageView>>,
)
    requires
        state.well_formed(),
        replies.len() >= exchanges_left(state),
        !accepted(state, replies),
    ensures
        run(state, replies) == ProgressView::Failed(Error::NoResponse),
{
    law_resolution_ends(state, replies);
    law_answer_iff_accepted(state, replies);
    law_failure_is_no_response(state, replies);
}

/// No server is skipped: the first exchange goes to the server that the
/// resolution is at, and each later exchange goes either to the same server
/// as the one before it, over TCP after UDP, or to the very next server in
/// line.
pub proof fn law_no_server_is_skipped(state: ResolutionView, replies: Seq<Option<MessageView>>)
    ensures
        consulted(state, replies).len() > 0 <==> replies.len() > 0,
        replies.len() > 0 ==> consulted(state, replies)[0] == (state.server, state.transport),
        forall|i: int|
            0 <= i && i + 1 < consulted(state, replies).len() ==> follows(
                #[trigger] consulted(state, replies)[i],
                consulted(state, replies)[i + 1],
                state.force_tcp,
            ),
    decreases replies.len(),
{
    if replies.len() > 0 {
        let all = consulted(state, replies);
        match state.step(replies[0]) {
            ProgressView::Pending(next) => {
                let rest = replies.skip(1);
                law_no_server_is_skipped(next, rest);
                let tail = consulted(next, rest);
                assert(all =~= seq![(state.server, state.transport)] + tail);
                assert forall|i: int| 0 <= i && i + 1 < all.len() implies follows(
                    #[trigger] all[i],
                    all[i + 1],
                    state.force_tcp,
                ) by {
                    if i == 0 {
                        assert(all[1] == tail[0]);
                    } else {
                        assert(all[i] == tail[i - 1]);
                        assert(all[i + 1] == tail[i]);
                    }
                }
            },
            _ => {
                assert(all =~= seq![(state.server, state.transport)]);
            },
        }
    }
}

/// Servers are consulted front to back: no exchange goes to a server that
/// stands before the one of an earlier exchange, and none to a server that
/// stands before the one the resolution is at.
pub proof fn law_servers_in_order(state: ResolutionView, replies: Seq<Option<MessageView>>)
    requires
        state.well_formed(),
    ensures
        forall|i: int|
            0 <= i < consulted(state, replies).len() ==> state.server <= (#[trigger] consulted(
                state,
                replies,
            )[i]).0 < state.servers.len(),
        forall|i: int, j: int|
            0 <= i <= j < consulted(state, replies).len() ==> (#[trigger] consulted(
                state,
                replies,
            )[i]).0 <= (#[trigger] consulted(state, replies)[j]).0,
    decreases replies.len(),
{
    if replies.len() > 0 {
        match state.step(replies[0]) {
            ProgressView::Pending(next) => {
                law_servers_in_order(next, replies.skip(1));
                let tail = consulted(next, replies.skip(1));
                let all = consulted(state, replies);
                assert(all =~= seq![(state.server, state.transport)] + tail);
                assert forall|i: int| 0 <= i < all.len() implies
                    state.server <= (#[trigger] all[i]).0 < state.servers.len()
                by {
                    if i > 0 {
                        assert(all[i] == tail[i - 1]);
                    }
                }
                assert forall|i: int, j: int| 0 <= i <= j < all.len() implies
                    (#[trigger] all[i]).0 <= (#[trigger] all[j]).0
                by {
                    if i > 0 {
                        assert(all[i] == tail[i - 1]);
                        assert(all[j] == tail[j - 1]);
                    } else if j > 0 {
                        assert(all[j] == tail[j - 1]);
                    }
                }
            },
            _ => {
                assert(consulted(state, replies) =~= seq![(state.server, state.transport)]);
            },
        }
    }
}

} // verus!
