//! One connection: which step follows which event.
//!
//! The caller owns the socket and the HTTP client. It reads, hands what
//! happened to [`advance`], and does what comes back: read again, call the
//! backend, write a response and flush it, or stop.

use crate::backend::{lookup_outcome, lookup_outcome_of, HttpReply, Notice};
use crate::config::{Endpoint, EndpointMode};
use crate::plan::{
    planned, policy_plan, policy_plan_of, socketmap_plan, socketmap_plan_of, tcp_lookup_plan,
    tcp_lookup_plan_of, BackendCall, CallView, Plan, PlanError, PlanView,
};
use crate::netstring::{decode_netstring, netstring_payload};
use crate::policy::{policy_answer, policy_notice, policy_reply};
use crate::socketmap::{socketmap_answer, socketmap_notice, socketmap_reply};
use crate::tcp_lookup::{tcp_lookup_answer, tcp_lookup_notice, tcp_lookup_reply};
use crate::text::{decode_lossy, lossy_utf8};
use vstd::prelude::*;
use vstd::utf8::valid_utf8;

verus! {

/// Where a connection stands.
#[derive(Debug, Clone, Copy, PartialEq, Eq)]
pub enum ConnState {
    /// Waiting for a request from the peer.
    AwaitRequest,
    /// Waiting for the backend's answer.
    AwaitBackend,
    /// Waiting for the response to be written and flushed.
    AwaitWrite,
    /// Done.
    Closed,
}

/// What happened on a connection.
pub enum Event {
    /// A read gave these bytes, as they came from the socket. None at all
    /// means that the peer is gone.
    Received(Vec<u8>),
    /// The peer closed the connection.
    PeerClosed,
    /// The call to the backend ended.
    BackendReplied(HttpReply),
    /// The response was written and flushed.
    Written,
    /// Reading, writing or flushing failed.
    IoFailed,
}

/// Why a connection was given up.
#[derive(Debug, Clone, Copy, PartialEq, Eq)]
pub enum Failure {
    /// The socket failed.
    Io,
    /// No call could be made for a request.
    Plan(PlanError),
    /// An event came that the state does not wait for.
    UnexpectedEvent,
}

/// What the caller does next.
pub enum Action {
    /// Read the next request.
    Read,
    /// Make this call and report how it ended.
    Call(BackendCall),
    /// Write these bytes, flush, and report it.
    Write(Vec<u8>),
    /// Close the connection; nothing went wrong.
    Close,
    /// Close the connection and report the failure.
    Fail(Failure),
}

/// `Action` as a mathematical value.
pub ghost enum ActionView {
    Read,
    Call(CallView),
    Write(Seq<u8>),
    Close,
    Fail(Failure),
}

impl View for Action {
    type V = ActionView;

    open spec fn view(&self) -> ActionView {
        match self {
            Action::Read => ActionView::Read,
            Action::Call(call) => ActionView::Call(call@),
            Action::Write(bytes) => ActionView::Write(bytes@),
            Action::Close => ActionView::Close,
            Action::Fail(why) => ActionView::Fail(*why),
        }
    }
}

/// What to do about a request, by the endpoint's protocol.
pub open spec fn plan_of(endpoint: Endpoint, user_agent: Seq<char>, request: Seq<u8>) -> Result<
    PlanView,
    PlanError,
> {
    match endpoint.mode {
        EndpointMode::TcpLookup => tcp_lookup_plan_of(
            endpoint.target@,
            endpoint.auth_token@,
            user_agent,
            request,
        ),
        EndpointMode::SocketmapLookup => socketmap_plan_of(
            endpoint.target@,
            endpoint.auth_token@,
            user_agent,
            request,
        ),
        EndpointMode::Policy => Ok(
            policy_plan_of(endpoint.target@, endpoint.auth_token@, user_agent, request),
        ),
    }
}

/// The request that the bytes of one read are: the bytes themselves where
/// they are UTF-8 text, else the text with U+FFFD for whatever is none.
pub open spec fn request_text(raw: Seq<u8>) -> Seq<u8> {
    if valid_utf8(raw) {
        raw
    } else {
        lossy_utf8(raw)
    }
}

/// What to do about the bytes of one read.
pub open spec fn plan_for_read(endpoint: Endpoint, user_agent: Seq<char>, raw: Seq<u8>) -> Result<
    PlanView,
    PlanError,
> {
    plan_of(endpoint, user_agent, request_text(raw))
}

/// The response that follows from the backend's answer, by the protocol.
pub open spec fn reply_of(mode: EndpointMode, reply: HttpReply) -> Seq<u8> {
    match mode {
        EndpointMode::TcpLookup => tcp_lookup_reply(lookup_outcome_of(reply)),
        EndpointMode::SocketmapLookup => socketmap_reply(lookup_outcome_of(reply)),
        EndpointMode::Policy => policy_reply(reply),
    }
}

/// What the log is told about a request: that a socketmap request was no
/// netstring.
pub open spec fn request_notice(mode: EndpointMode, request: Seq<u8>) -> Option<Notice> {
    if mode is SocketmapLookup && netstring_payload(request) is None {
        Some(Notice::InvalidNetstring)
    } else {
        None
    }
}

/// What the log is told about the response that follows from the
/// backend's answer, by the protocol.
pub open spec fn reply_notice(mode: EndpointMode, reply: HttpReply) -> Option<Notice> {
    match mode {
        EndpointMode::TcpLookup => tcp_lookup_notice(lookup_outcome_of(reply)),
        EndpointMode::SocketmapLookup => socketmap_notice(lookup_outcome_of(reply)),
        EndpointMode::Policy => policy_notice(reply),
    }
}

/// What the log is told about a step.
pub open spec fn notice_of(endpoint: Endpoint, state: ConnState, event: Event) -> Option<Notice> {
    match (state, event) {
        (ConnState::AwaitRequest, Event::Received(request)) => if request@.len() == 0 {
            None
        } else {
            request_notice(endpoint.mode, request_text(request@))
        },
        (ConnState::AwaitBackend, Event::BackendReplied(reply)) => reply_notice(
            endpoint.mode,
            reply,
        ),
        _ => None,
    }
}

/// After a response: a policy connection is closed, a lookup connection
/// waits for the next request.
pub open spec fn after_write(mode: EndpointMode) -> (ConnState, ActionView) {
    match mode {
        EndpointMode::Policy => (ConnState::Closed, ActionView::Close),
        _ => (ConnState::AwaitRequest, ActionView::Read),
    }
}

/// The step that a request leads to.
pub open spec fn after_request(plan: Result<PlanView, PlanError>) -> (ConnState, ActionView) {
    match plan {
        Ok(PlanView::Reply(bytes)) => (ConnState::AwaitWrite, ActionView::Write(bytes)),
        Ok(PlanView::Call(call)) => (ConnState::AwaitBackend, ActionView::Call(call)),
        Err(e) => (ConnState::Closed, ActionView::Fail(Failure::Plan(e))),
    }
}

/// The state after an event, and what the caller does next.
pub open spec fn next_of(
    endpoint: Endpoint,
    user_agent: Seq<char>,
    state: ConnState,
    event: Event,
) -> (ConnState, ActionView) {
    match (state, event) {
        (ConnState::Closed, _) => (ConnState::Closed, ActionView::Close),
        (_, Event::IoFailed) => (ConnState::Closed, ActionView::Fail(Failure::Io)),
        (ConnState::AwaitRequest, Event::PeerClosed) => (ConnState::Closed, ActionView::Close),
        (ConnState::AwaitRequest, Event::Received(request)) => if request@.len() == 0 {
            (ConnState::Closed, ActionView::Close)
        } else {
            after_request(plan_for_read(endpoint, user_agent, request@))
        },
        (ConnState::AwaitBackend, Event::BackendReplied(reply)) => (
            ConnState::AwaitWrite,
            ActionView::Write(reply_of(endpoint.mode, reply)),
        ),
        (ConnState::AwaitWrite, Event::Written) => after_write(endpoint.mode),
        _ => (ConnState::Closed, ActionView::Fail(Failure::UnexpectedEvent)),
    }
}

/// Where a run of events leads, and the actions that it asks for, one
/// for each event.
pub open spec fn run_of(
    endpoint: Endpoint,
    user_agent: Seq<char>,
    state: ConnState,
    events: Seq<Event>,
) -> (ConnState, Seq<ActionView>)
    decreases events.len(),
{
    if events.len() == 0 {
        (state, Seq::empty())
    } else {
        let step = next_of(endpoint, user_agent, state, events.first());
        let rest = run_of(endpoint, user_agent, step.0, events.drop_first());
        (rest.0, seq![step.1] + rest.1)
    }
}

/// The responses among a sequence of actions, in their order.
pub open spec fn writes_of(actions: Seq<ActionView>) -> Seq<Seq<u8>>
    decreases actions.len(),
{
    if actions.len() == 0 {
        Seq::empty()
    } else {
        match actions.last() {
            ActionView::Write(bytes) => writes_of(actions.drop_last()).push(bytes),
            _ => writes_of(actions.drop_last()),
        }
    }
}

/// The events of one exchange that goes well: the request arrives, the
/// backend answers where it is asked, the response is written.
pub open spec fn exchange_events(
    endpoint: Endpoint,
    user_agent: Seq<char>,
    request: Vec<u8>,
    reply: HttpReply,
) -> Seq<Event> {
    match plan_for_read(endpoint, user_agent, request@) {
        Ok(PlanView::Call(_)) => seq![
            Event::Received(request),
            Event::BackendReplied(reply),
            Event::Written,
        ],
        _ => seq![Event::Received(request), Event::Written],
    }
}

/// The response to a request, given what the backend answers where it is
/// asked.
pub open spec fn response_of(
    endpoint: Endpoint,
    user_agent: Seq<char>,
    request: Seq<u8>,
    reply: HttpReply,
) -> Seq<u8> {
    match plan_for_read(endpoint, user_agent, request) {
        Ok(PlanView::Reply(bytes)) => bytes,
        _ => reply_of(endpoint.mode, reply),
    }
}

/// Two answers of the backend that are the same for every protocol: both
/// are none, or they have the same status and the same body.
pub open spec fn same_reply(a: HttpReply, b: HttpReply) -> bool {
    match (a, b) {
        (HttpReply::Unreachable(_), HttpReply::Unreachable(_)) => true,
        (
            HttpReply::Response { status: s1, body: b1 },
            HttpReply::Response { status: s2, body: b2 },
        ) => s1 == s2 && match (b1, b2) {
            (Some(x), Some(y)) => x@ == y@,
            (None, None) => true,
            _ => false,
        },
        _ => false,
    }
}

/// A run of two parts is the run of the first, then the run of the second
/// from where the first ended.
pub proof fn lemma_run_concat(
    endpoint: Endpoint,
    user_agent: Seq<char>,
    state: ConnState,
    first: Seq<Event>,
    second: Seq<Event>,
)
    ensures
        run_of(endpoint, user_agent, state, first + second) == ({
            let a = run_of(endpoint, user_agent, state, first);
            let b = run_of(endpoint, user_agent, a.0, second);
            (b.0, a.1 + b.1)
        }),
    decreases first.len(),
{
    let a = run_of(endpoint, user_agent, state, first);
    let b = run_of(endpoint, user_agent, a.0, second);
    if first.len() == 0 {
        assert(first + second =~= second);
        assert(a.1 + b.1 =~= b.1);
    } else {
        let step = next_of(endpoint, user_agent, state, first.first());
        assert((first + second).first() == first.first());
        assert((first + second).drop_first() =~= first.drop_first() + second);
        lemma_run_concat(endpoint, user_agent, step.0, first.drop_first(), second);
        let rest = run_of(endpoint, user_agent, step.0, first.drop_first());
        assert(seq![step.1] + (rest.1 + b.1) =~= (seq![step.1] + rest.1) + b.1);
    }
}

/// The responses of two sequences of actions, one after the other.
pub proof fn lemma_writes_concat(a: Seq<ActionView>, b: Seq<ActionView>)
    ensures
        writes_of(a + b) == writes_of(a) + writes_of(b),
    decreases b.len(),
{
    if b.len() == 0 {
        assert(a + b =~= a);
        assert(writes_of(a) + writes_of(b) =~= writes_of(a));
    } else {
        assert((a + b).drop_last() =~= a + b.drop_last());
        assert((a + b).last() == b.last());
        lemma_writes_concat(a, b.drop_last());
        match b.last() {
            ActionView::Write(bytes) => {
                assert(writes_of(a + b) =~= writes_of(a) + writes_of(b));
            },
            _ => {},
        }
    }
}

/// Nothing is written on a closed connection, whatever happens on it.
pub proof fn lemma_closed_stays_closed(endpoint: Endpoint, user_agent: Seq<char>, events: Seq<Event>)
    ensures
        run_of(endpoint, user_agent, ConnState::Closed, events).0 == ConnState::Closed,
        writes_of(run_of(endpoint, user_agent, ConnState::Closed, events).1).len() == 0,
    decreases events.len(),
{
    if events.len() > 0 {
        lemma_closed_stays_closed(endpoint, user_agent, events.drop_first());
        let rest = run_of(endpoint, user_agent, ConnState::Closed, events.drop_first());
        lemma_writes_concat(seq![ActionView::Close], rest.1);
        lemma_writes_single(ActionView::Close);
    }
}

/// The responses of a single action.
pub proof fn lemma_writes_single(action: ActionView)
    ensures
        writes_of(seq![action]) == match action {
            ActionView::Write(bytes) => seq![bytes],
            _ => Seq::<Seq<u8>>::empty(),
        },
{
    let one = seq![action];
    assert(one.drop_last() =~= Seq::<ActionView>::empty());
    assert(one.last() == action);
    assert(writes_of(one.drop_last()) =~= Seq::<Seq<u8>>::empty());
    match action {
        ActionView::Write(bytes) => {
            assert(writes_of(one) =~= seq![bytes]);
        },
        _ => {},
    }
}

/// One exchange: a request that can be answered is answered with exactly
/// one response, after which a policy connection is closed and a lookup
/// connection waits for the next request.
pub proof fn lemma_one_exchange(
    endpoint: Endpoint,
    user_agent: Seq<char>,
    request: Vec<u8>,
    reply: HttpReply,
)
    requires
        request@.len() > 0,
        plan_for_read(endpoint, user_agent, request@) is Ok,
    ensures
        ({
            let run = run_of(
                endpoint,
                user_agent,
                ConnState::AwaitRequest,
                exchange_events(endpoint, user_agent, request, reply),
            );
            &&& run.0 == after_write(endpoint.mode).0
            &&& writes_of(run.1) == seq![response_of(endpoint, user_agent, request@, reply)]
        }),
{
    let events = exchange_events(endpoint, user_agent, request, reply);
    let start = ConnState::AwaitRequest;
    let last = after_write(endpoint.mode);
    assert(last.1 != ActionView::Write(Seq::<u8>::empty()));
    match plan_for_read(endpoint, user_agent, request@) {
        Ok(PlanView::Call(call)) => {
            let e1 = seq![Event::Received(request)];
            let e2 = seq![Event::BackendReplied(reply)];
            let e3 = seq![Event::Written];
            assert(events =~= e1 + (e2 + e3));
            lemma_run_single(endpoint, user_agent, start, Event::Received(request));
            lemma_run_single(
                endpoint,
                user_agent,
                ConnState::AwaitBackend,
                Event::BackendReplied(reply),
            );
            lemma_run_single(endpoint, user_agent, ConnState::AwaitWrite, Event::Written);
            lemma_run_concat(endpoint, user_agent, ConnState::AwaitBackend, e2, e3);
            lemma_run_concat(endpoint, user_agent, start, e1, e2 + e3);
            let w = ActionView::Write(reply_of(endpoint.mode, reply));
            let actions = seq![ActionView::Call(call)] + (seq![w] + seq![last.1]);
            assert(run_of(endpoint, user_agent, start, events).1 == actions);
            lemma_writes_concat(seq![w], seq![last.1]);
            lemma_writes_concat(seq![ActionView::Call(call)], seq![w] + seq![last.1]);
            lemma_writes_single(ActionView::Call(call));
            lemma_writes_single(w);
            lemma_writes_single(last.1);
            assert(writes_of(actions) =~= seq![reply_of(endpoint.mode, reply)]);
        },
        Ok(PlanView::Reply(bytes)) => {
            let e1 = seq![Event::Received(request)];
            let e3 = seq![Event::Written];
            assert(events =~= e1 + e3);
            lemma_run_single(endpoint, user_agent, start, Event::Received(request));
            lemma_run_single(endpoint, user_agent, ConnState::AwaitWrite, Event::Written);
            lemma_run_concat(endpoint, user_agent, start, e1, e3);
            let w = ActionView::Write(bytes);
            let actions = seq![w] + seq![last.1];
            assert(run_of(endpoint, user_agent, start, events).1 == actions);
            lemma_writes_concat(seq![w], seq![last.1]);
            lemma_writes_single(w);
            lemma_writes_single(last.1);
            assert(writes_of(actions) =~= seq![bytes]);
        },
        Err(_) => {},
    }
}

/// The run of a single event is one step.
pub proof fn lemma_run_single(
    endpoint: Endpoint,
    user_agent: Seq<char>,
    state: ConnState,
    event: Event,
)
    ensures
        run_of(endpoint, user_agent, state, seq![event]) == ({
            let step = next_of(endpoint, user_agent, state, event);
            (step.0, seq![step.1])
        }),
{
    let events = seq![event];
    let step = next_of(endpoint, user_agent, state, event);
    assert(events.first() == event);
    assert(events.drop_first() =~= Seq::<Event>::empty());
    let rest = run_of(endpoint, user_agent, step.0, events.drop_first());
    assert(rest.1 =~= Seq::<ActionView>::empty());
    assert(seq![step.1] + rest.1 =~= seq![step.1]);
}

/// A lookup connection is used again: two requests, one after the other
/// on one connection, get a response each, and the connection then waits
/// for a third.
pub proof fn lemma_lookup_connection_serves_again(
    endpoint: Endpoint,
    user_agent: Seq<char>,
    first: Vec<u8>,
    first_reply: HttpReply,
    second: Vec<u8>,
    second_reply: HttpReply,
)
    requires
        !(endpoint.mode is Policy),
        first@.len() > 0,
        second@.len() > 0,
        plan_for_read(endpoint, user_agent, first@) is Ok,
        plan_for_read(endpoint, user_agent, second@) is Ok,
    ensures
        ({
            let run = run_of(
                endpoint,
                user_agent,
                ConnState::AwaitRequest,
                exchange_events(endpoint, user_agent, first, first_reply) + exchange_events(
                    endpoint,
                    user_agent,
                    second,
                    second_reply,
                ),
            );
            &&& run.0 == ConnState::AwaitRequest
            &&& writes_of(run.1) == seq![
                response_of(endpoint, user_agent, first@, first_reply),
                response_of(endpoint, user_agent, second@, second_reply),
            ]
        }),
{
    let start = ConnState::AwaitRequest;
    let e1 = exchange_events(endpoint, user_agent, first, first_reply);
    let e2 = exchange_events(endpoint, user_agent, second, second_reply);
    lemma_one_exchange(endpoint, user_agent, first, first_reply);
    lemma_one_exchange(endpoint, user_agent, second, second_reply);
    lemma_run_concat(endpoint, user_agent, start, e1, e2);
    let r1 = run_of(endpoint, user_agent, start, e1);
    let r2 = run_of(endpoint, user_agent, start, e2);
    lemma_writes_concat(r1.1, r2.1);
    assert(writes_of(r1.1) + writes_of(r2.1) =~= seq![
        response_of(endpoint, user_agent, first@, first_reply),
        response_of(endpoint, user_agent, second@, second_reply),
    ]);
}

/// A policy connection answers once: after the response to its first
/// request it is closed, and nothing more is written, whatever else
/// happens on it.
pub proof fn lemma_policy_connection_answers_once(
    endpoint: Endpoint,
    user_agent: Seq<char>,
    request: Vec<u8>,
    reply: HttpReply,
    more: Seq<Event>,
)
    requires
        endpoint.mode is Policy,
        request@.len() > 0,
    ensures
        ({
            let run = run_of(
                endpoint,
                user_agent,
                ConnState::AwaitRequest,
                exchange_events(endpoint, user_agent, request, reply) + more,
            );
            &&& run.0 == ConnState::Closed
            &&& writes_of(run.1) == seq![response_of(endpoint, user_agent, request@, reply)]
        }),
{
    let start = ConnState::AwaitRequest;
    let e1 = exchange_events(endpoint, user_agent, request, reply);
    lemma_one_exchange(endpoint, user_agent, request, reply);
    lemma_run_concat(endpoint, user_agent, start, e1, more);
    lemma_closed_stays_closed(endpoint, user_agent, more);
    let r1 = run_of(endpoint, user_agent, start, e1);
    let r2 = run_of(endpoint, user_agent, ConnState::Closed, more);
    lemma_writes_concat(r1.1, r2.1);
    assert(writes_of(r1.1) + writes_of(r2.1) =~= writes_of(r1.1));
}

/// No state is kept between exchanges: the same request, answered the
/// same by the backend, gets the same response.
pub proof fn lemma_same_request_same_response(
    endpoint: Endpoint,
    user_agent: Seq<char>,
    first: Seq<u8>,
    first_reply: HttpReply,
    second: Seq<u8>,
    second_reply: HttpReply,
)
    requires
        first == second,
        same_reply(first_reply, second_reply),
    ensures
        response_of(endpoint, user_agent, first, first_reply) == response_of(
            endpoint,
            user_agent,
            second,
            second_reply,
        ),
{
}

/// Plans the answer to a request, by the endpoint's protocol.
pub fn plan_request(endpoint: &Endpoint, request: &[u8], user_agent: &str) -> (r: Result<
    Plan,
    PlanError,
>)
    ensures
        planned(r) == plan_of(*endpoint, user_agent@, request@),
{
    match endpoint.mode {
        EndpointMode::TcpLookup => tcp_lookup_plan(endpoint, request, user_agent),
        EndpointMode::SocketmapLookup => socketmap_plan(endpoint, request, user_agent),
        EndpointMode::Policy => Ok(policy_plan(endpoint, request, user_agent)),
    }
}

/// The response that follows from the backend's answer, and what the log
/// is told about it.
pub fn answer_request(mode: EndpointMode, reply: HttpReply) -> (out: (Vec<u8>, Option<Notice>))
    ensures
        out.0@ == reply_of(mode, reply),
        out.1 == reply_notice(mode, reply),
{
    match mode {
        EndpointMode::TcpLookup => {
            let outcome = lookup_outcome(reply);
            tcp_lookup_answer(&outcome)
        },
        EndpointMode::SocketmapLookup => {
            let outcome = lookup_outcome(reply);
            socketmap_answer(&outcome)
        },
        EndpointMode::Policy => policy_answer(&reply),
    }
}

/// The response that follows from the backend's answer.
pub fn finish_request(mode: EndpointMode, reply: HttpReply) -> (out: Vec<u8>)
    ensures
        out@ == reply_of(mode, reply),
{
    answer_request(mode, reply).0
}

/// Whether a request is one that the log is told about.
pub fn notice_for_request(mode: EndpointMode, request: &[u8]) -> (notice: Option<Notice>)
    ensures
        notice == request_notice(mode, request@),
{
    match mode {
        EndpointMode::SocketmapLookup => match decode_netstring(request) {
            Some(_) => None,
            None => Some(Notice::InvalidNetstring),
        },
        _ => None,
    }
}

/// Whether the connection goes on after a response was written.
pub fn stays_open(mode: EndpointMode) -> (r: bool)
    ensures
        r == (after_write(mode).0 == ConnState::AwaitRequest),
        r == !(mode is Policy),
{
    match mode {
        EndpointMode::Policy => false,
        _ => true,
    }
}

/// Takes one step: from the state and what happened to the next state,
/// what to do, and what to tell the log.
pub fn advance(endpoint: &Endpoint, user_agent: &str, state: ConnState, event: Event) -> (r: (
    ConnState,
    Action,
    Option<Notice>,
))
    ensures
        (r.0, r.1@) == next_of(*endpoint, user_agent@, state, event),
        r.2 == notice_of(*endpoint, state, event),
{
    match state {
        ConnState::Closed => (ConnState::Closed, Action::Close, None),
        ConnState::AwaitRequest => match event {
            Event::IoFailed => (ConnState::Closed, Action::Fail(Failure::Io), None),
            Event::PeerClosed => (ConnState::Closed, Action::Close, None),
            Event::Received(request) => {
                if request.len() == 0 {
                    (ConnState::Closed, Action::Close, None)
                } else {
                    let text = decode_lossy(request.as_slice());
                    assert(text@ == request_text(request@));
                    let notice = notice_for_request(endpoint.mode, text.as_slice());
                    match plan_request(endpoint, text.as_slice(), user_agent) {
                        Ok(Plan::Reply(bytes)) => (
                            ConnState::AwaitWrite,
                            Action::Write(bytes),
                            notice,
                        ),
                        Ok(Plan::Call(call)) => (
                            ConnState::AwaitBackend,
                            Action::Call(call),
                            notice,
                        ),
                        Err(e) => (ConnState::Closed, Action::Fail(Failure::Plan(e)), notice),
                    }
                }
            },
            _ => (ConnState::Closed, Action::Fail(Failure::UnexpectedEvent), None),
        },
        ConnState::AwaitBackend => match event {
            Event::IoFailed => (ConnState::Closed, Action::Fail(Failure::Io), None),
            Event::BackendReplied(reply) => {
                let (bytes, notice) = answer_request(endpoint.mode, reply);
                (ConnState::AwaitWrite, Action::Write(bytes), notice)
            },
            _ => (ConnState::Closed, Action::Fail(Failure::UnexpectedEvent), None),
        },
        ConnState::AwaitWrite => match event {
            Event::IoFailed => (ConnState::Closed, Action::Fail(Failure::Io), None),
            Event::Written => {
                if stays_open(endpoint.mode) {
                    (ConnState::AwaitRequest, Action::Read, None)
                } else {
                    (ConnState::Closed, Action::Close, None)
                }
            },
            _ => (ConnState::Closed, Action::Fail(Failure::UnexpectedEvent), None),
        },
    }
}

} // verus!
