//! The session state machine for one accepted connection: handshake
//! (header, client id, granted reply), upstream connect, and the
//! lock-step relay loop. The machine owns every decision; the caller
//! owns the sockets, performs each returned [`Action`] and feeds the
//! outcome back as the next [`Event`].

use vstd::prelude::*;

use crate::codec::{ConnectReply, ConnectRequest, request_of_bytes, STATUS_GRANTED};

verus! {

/// How a finished session ended.
#[derive(Clone, Copy, Debug, PartialEq, Eq, Structural)]
pub enum SessionEnd {
    /// The client closed after the handshake with nothing left to relay.
    CleanClose,
    /// Fewer than eight header bytes arrived, or the id stream closed
    /// before its zero terminator; no reply is sent.
    FramingError,
    /// The upstream connection could not be established; the relay
    /// loop is never entered.
    UpstreamConnectError,
    /// A read or write failed after the handshake.
    RelayIoError,
}

/// Where one session stands. The client id is read byte by byte while
/// in `AwaitingId` and discarded once its terminator arrives: nothing
/// later in the session depends on it.
#[derive(Clone, Copy, Debug, PartialEq, Eq, Structural)]
pub enum SessionState {
    /// Waiting for the eight header bytes.
    AwaitingHeader,
    /// Header decoded; reading the zero-terminated client id.
    AwaitingId { header: ConnectRequest },
    /// Id terminated; the granted reply is being written.
    SendingReply { header: ConnectRequest },
    /// Reply written; the upstream connection is being opened.
    Connecting { header: ConnectRequest },
    /// In the relay loop, about to read from the client.
    RelayClientRead,
    /// Client bytes forwarded upstream, about to read the response.
    RelayUpstreamRead,
    /// The session is over.
    Done { end: SessionEnd },
}

/// What the caller observed on the sockets.
#[derive(Debug)]
pub enum Event {
    /// The bytes read for the header; fewer than eight means the
    /// client closed early.
    HeaderBytes(Vec<u8>),
    /// One byte of the client id field.
    IdByte(u8),
    /// The client closed while the id was being read.
    ClientClosed,
    /// The reply bytes were written in full.
    ReplyWritten,
    /// The upstream connection is open.
    ConnectOk,
    /// The upstream connection could not be established.
    ConnectFailed,
    /// Bytes read from the client during relay; empty means the
    /// client closed.
    ClientData(Vec<u8>),
    /// Bytes read from upstream after a forwarded request.
    UpstreamData(Vec<u8>),
    /// A read or write failed.
    IoError,
}

/// The mathematical value of an [`Event`].
pub enum EventV {
    HeaderBytes(Seq<u8>),
    IdByte(u8),
    ClientClosed,
    ReplyWritten,
    ConnectOk,
    ConnectFailed,
    ClientData(Seq<u8>),
    UpstreamData(Seq<u8>),
    IoError,
}

impl View for Event {
    type V = EventV;

    open spec fn view(&self) -> EventV {
        match self {
            Event::HeaderBytes(b) => EventV::HeaderBytes(b@),
            Event::IdByte(x) => EventV::IdByte(*x),
            Event::ClientClosed => EventV::ClientClosed,
            Event::ReplyWritten => EventV::ReplyWritten,
            Event::ConnectOk => EventV::ConnectOk,
            Event::ConnectFailed => EventV::ConnectFailed,
            Event::ClientData(b) => EventV::ClientData(b@),
            Event::UpstreamData(b) => EventV::UpstreamData(b@),
            Event::IoError => EventV::IoError,
        }
    }
}

/// What the caller must do next.
#[derive(Debug)]
pub enum Action {
    /// Read one more byte of the client id.
    ReadIdByte,
    /// Write the eight reply bytes to the client.
    WriteReply(ConnectReply),
    /// Open the upstream connection to this address and port.
    ConnectUpstream(u32, u16),
    /// Read from the client socket.
    ReadClient,
    /// Write these bytes upstream, then read the upstream response.
    WriteUpstream(Vec<u8>),
    /// Write these bytes back to the client, then read the client again.
    WriteClient(Vec<u8>),
    /// Tear the session down; both sockets close.
    Stop,
}

/// The mathematical value of an [`Action`].
pub enum ActionV {
    ReadIdByte,
    WriteReply(ConnectReply),
    ConnectUpstream(u32, u16),
    ReadClient,
    WriteUpstream(Seq<u8>),
    WriteClient(Seq<u8>),
    Stop,
}

impl View for Action {
    type V = ActionV;

    open spec fn view(&self) -> ActionV {
        match self {
            Action::ReadIdByte => ActionV::ReadIdByte,
            Action::WriteReply(r) => ActionV::WriteReply(*r),
            Action::ConnectUpstream(a, p) => ActionV::ConnectUpstream(*a, *p),
            Action::ReadClient => ActionV::ReadClient,
            Action::WriteUpstream(b) => ActionV::WriteUpstream(b@),
            Action::WriteClient(b) => ActionV::WriteClient(b@),
            Action::Stop => ActionV::Stop,
        }
    }
}

/// The reply the handshake always grants: reply version zero, status
/// granted, bound port fixed to zero, bound address echoing the
/// requested destination.
pub open spec fn granted_reply(header: ConnectRequest) -> ConnectReply {
    ConnectReply {
        version: 0,
        status: STATUS_GRANTED,
        bound_port: 0,
        bound_addr: header.dst_addr,
    }
}

/// Build the granted reply for a parsed request.
pub fn make_reply(header: &ConnectRequest) -> (r: ConnectReply)
    ensures
        r == granted_reply(*header),
{
    ConnectReply::new(0, STATUS_GRANTED, 0, header.dst_addr)
}

/// Whether an event can arise while the session is in this state:
/// each state has exactly the observations its pending action can
/// produce, and a finished session produces none.
pub open spec fn event_allowed(s: SessionState, e: EventV) -> bool {
    match (s, e) {
        (SessionState::AwaitingHeader, EventV::HeaderBytes(_)) => true,
        (SessionState::AwaitingId { .. }, EventV::IdByte(_)) => true,
        (SessionState::AwaitingId { .. }, EventV::ClientClosed) => true,
        (SessionState::SendingReply { .. }, EventV::ReplyWritten) => true,
        (SessionState::SendingReply { .. }, EventV::IoError) => true,
        (SessionState::Connecting { .. }, EventV::ConnectOk) => true,
        (SessionState::Connecting { .. }, EventV::ConnectFailed) => true,
        (SessionState::RelayClientRead, EventV::ClientData(_)) => true,
        (SessionState::RelayClientRead, EventV::IoError) => true,
        (SessionState::RelayUpstreamRead, EventV::UpstreamData(_)) => true,
        (SessionState::RelayUpstreamRead, EventV::IoError) => true,
        _ => false,
    }
}

/// The transition relation of one session, as a function: the next
/// state and the next action for every state and event. An event that
/// cannot arise in the current state leaves the state unchanged and
/// stops the session.
pub open spec fn step_spec(s: SessionState, e: EventV) -> (SessionState, ActionV) {
    match (s, e) {
        (SessionState::AwaitingHeader, EventV::HeaderBytes(b)) => if b.len() == 8 {
            (SessionState::AwaitingId { header: request_of_bytes(b) }, ActionV::ReadIdByte)
        } else {
            (SessionState::Done { end: SessionEnd::FramingError }, ActionV::Stop)
        },
        (SessionState::AwaitingId { header }, EventV::IdByte(x)) => if x == 0 {
            (
                SessionState::SendingReply { header },
                ActionV::WriteReply(granted_reply(header)),
            )
        } else {
            (SessionState::AwaitingId { header }, ActionV::ReadIdByte)
        },
        (SessionState::AwaitingId { .. }, EventV::ClientClosed) => (
            SessionState::Done { end: SessionEnd::FramingError },
            ActionV::Stop,
        ),
        (SessionState::SendingReply { header }, EventV::ReplyWritten) => (
            SessionState::Connecting { header },
            ActionV::ConnectUpstream(header.dst_addr, header.dst_port),
        ),
        (SessionState::SendingReply { .. }, EventV::IoError) => (
            SessionState::Done { end: SessionEnd::RelayIoError },
            ActionV::Stop,
        ),
        (SessionState::Connecting { .. }, EventV::ConnectOk) => (
            SessionState::RelayClientRead,
            ActionV::ReadClient,
        ),
        (SessionState::Connecting { .. }, EventV::ConnectFailed) => (
            SessionState::Done { end: SessionEnd::UpstreamConnectError },
            ActionV::Stop,
        ),
        (SessionState::RelayClientRead, EventV::ClientData(b)) => if b.len() == 0 {
            (SessionState::Done { end: SessionEnd::CleanClose }, ActionV::Stop)
        } else {
            (SessionState::RelayUpstreamRead, ActionV::WriteUpstream(b))
        },
        (SessionState::RelayClientRead, EventV::IoError) => (
            SessionState::Done { end: SessionEnd::RelayIoError },
            ActionV::Stop,
        ),
        (SessionState::RelayUpstreamRead, EventV::UpstreamData(b)) => (
            SessionState::RelayClientRead,
            ActionV::WriteClient(b),
        ),
        (SessionState::RelayUpstreamRead, EventV::IoError) => (
            SessionState::Done { end: SessionEnd::RelayIoError },
            ActionV::Stop,
        ),
        (_, _) => (s, ActionV::Stop),
    }
}

/// The state a fresh session starts in.
pub fn initial_state() -> (s: SessionState)
    ensures
        s == SessionState::AwaitingHeader,
{
    SessionState::AwaitingHeader
}

/// Advance the session by one observed event. The result is exactly
/// what [`step_spec`] says for this state and event.
pub fn step(s: SessionState, e: Event) -> (r: (SessionState, Action))
    ensures
        r.0 == step_spec(s, e@).0,
        r.1@ == step_spec(s, e@).1,
{
    match (s, e) {
        (SessionState::AwaitingHeader, Event::HeaderBytes(b)) => if b.len() == 8 {
            let header = crate::codec::decode_request(&b);
            (SessionState::AwaitingId { header }, Action::ReadIdByte)
        } else {
            (SessionState::Done { end: SessionEnd::FramingError }, Action::Stop)
        },
        (SessionState::AwaitingId { header }, Event::IdByte(x)) => if x == 0 {
            let reply = make_reply(&header);
            (SessionState::SendingReply { header }, Action::WriteReply(reply))
        } else {
            (SessionState::AwaitingId { header }, Action::ReadIdByte)
        },
        (SessionState::AwaitingId { .. }, Event::ClientClosed) => (
            SessionState::Done { end: SessionEnd::FramingError },
            Action::Stop,
        ),
        (SessionState::SendingReply { header }, Event::ReplyWritten) => (
            SessionState::Connecting { header },
            Action::ConnectUpstream(header.dst_addr, header.dst_port),
        ),
        (SessionState::SendingReply { .. }, Event::IoError) => (
            SessionState::Done { end: SessionEnd::RelayIoError },
            Action::Stop,
        ),
        (SessionState::Connecting { .. }, Event::ConnectOk) => (
            SessionState::RelayClientRead,
            Action::ReadClient,
        ),
        (SessionState::Connecting { .. }, Event::ConnectFailed) => (
            SessionState::Done { end: SessionEnd::UpstreamConnectError },
            Action::Stop,
        ),
        (SessionState::RelayClientRead, Event::ClientData(b)) => if b.len() == 0 {
            (SessionState::Done { end: SessionEnd::CleanClose }, Action::Stop)
        } else {
            (SessionState::RelayUpstreamRead, Action::WriteUpstream(b))
        },
        (SessionState::RelayClientRead, Event::IoError) => (
            SessionState::Done { end: SessionEnd::RelayIoError },
            Action::Stop,
        ),
        (SessionState::RelayUpstreamRead, Event::UpstreamData(b)) => (
            SessionState::RelayClientRead,
            Action::WriteClient(b),
        ),
        (SessionState::RelayUpstreamRead, Event::IoError) => (
            SessionState::Done { end: SessionEnd::RelayIoError },
            Action::Stop,
        ),
        (_, _) => (s, Action::Stop),
    }
}

/// Run the machine over a sequence of events: the final state and the
/// actions emitted along the way. The run stops at the first event
/// that cannot arise in the state reached — in particular at any
/// event after the session is done.
pub open spec fn run_spec(s: SessionState, events: Seq<EventV>) -> (SessionState, Seq<ActionV>)
    decreases events.len(),
{
    if events.len() == 0 {
        (s, Seq::<ActionV>::empty())
    } else if !event_allowed(s, events[0]) {
        (s, Seq::<ActionV>::empty())
    } else {
        let first = step_spec(s, events[0]);
        let rest = run_spec(first.0, events.skip(1));
        (rest.0, seq![first.1] + rest.1)
    }
}

/// Whether an action belongs to the relay loop.
pub open spec fn is_relay_action(a: ActionV) -> bool {
    match a {
        ActionV::ReadClient => true,
        ActionV::WriteUpstream(_) => true,
        ActionV::WriteClient(_) => true,
        _ => false,
    }
}

/// The bytes an action writes to the client, if any.
pub open spec fn client_payload(a: ActionV) -> Seq<u8> {
    match a {
        ActionV::WriteClient(b) => b,
        _ => Seq::<u8>::empty(),
    }
}

/// The bytes an action writes upstream, if any.
pub open spec fn upstream_payload(a: ActionV) -> Seq<u8> {
    match a {
        ActionV::WriteUpstream(b) => b,
        _ => Seq::<u8>::empty(),
    }
}

/// All bytes a sequence of actions writes to the client, in order.
pub open spec fn client_bytes(actions: Seq<ActionV>) -> Seq<u8>
    decreases actions.len(),
{
    if actions.len() == 0 {
        Seq::<u8>::empty()
    } else {
        client_payload(actions[0]) + client_bytes(actions.skip(1))
    }
}

/// All bytes a sequence of actions writes upstream, in order.
pub open spec fn upstream_bytes(actions: Seq<ActionV>) -> Seq<u8>
    decreases actions.len(),
{
    if actions.len() == 0 {
        Seq::<u8>::empty()
    } else {
        upstream_payload(actions[0]) + upstream_bytes(actions.skip(1))
    }
}

proof fn lemma_bytes_cons(a: ActionV, rest: Seq<ActionV>)
    ensures
        client_bytes(seq![a] + rest) == client_payload(a) + client_bytes(rest),
        upstream_bytes(seq![a] + rest) == upstream_payload(a) + upstream_bytes(rest),
{
    assert((seq![a] + rest).skip(1) =~= rest);
    assert((seq![a] + rest)[0] == a);
}

proof fn lemma_run_done(end: SessionEnd, events: Seq<EventV>)
    ensures
        run_spec(SessionState::Done { end }, events)
            == (SessionState::Done { end }, Seq::<ActionV>::empty()),
{
    if events.len() > 0 {
        assert(!event_allowed(SessionState::Done { end }, events[0]));
    }
}

proof fn lemma_run_cons(s: SessionState, e: EventV, rest: Seq<EventV>)
    requires
        event_allowed(s, e),
    ensures
        ({
            let first = step_spec(s, e);
            let r2 = run_spec(first.0, rest);
            run_spec(s, seq![e] + rest) == (r2.0, seq![first.1] + r2.1)
        }),
{
    let events = seq![e] + rest;
    assert(events[0] == e);
    assert(events.skip(1) =~= rest);
}

proof fn lemma_bytes_of_stop(rest: Seq<ActionV>)
    requires
        rest == Seq::<ActionV>::empty(),
    ensures
        client_bytes(seq![ActionV::Stop] + rest) == Seq::<u8>::empty(),
        upstream_bytes(seq![ActionV::Stop] + rest) == Seq::<u8>::empty(),
{
    lemma_bytes_cons(ActionV::Stop, rest);
    assert(client_bytes(rest) == Seq::<u8>::empty());
    assert(upstream_bytes(rest) == Seq::<u8>::empty());
    assert(client_payload(ActionV::Stop) + Seq::<u8>::empty() =~= Seq::<u8>::empty());
    assert(upstream_payload(ActionV::Stop) + Seq::<u8>::empty() =~= Seq::<u8>::empty());
}

/// Law: when the client closes before eight header bytes have
/// arrived, the session ends with a framing error, and nothing —
/// in particular no reply — is ever written to the client, whatever
/// the caller observes afterwards.
pub proof fn lemma_short_header_fails_without_reply(b: Seq<u8>, rest: Seq<EventV>)
    requires
        b.len() < 8,
    ensures
        ({
            let r = run_spec(SessionState::AwaitingHeader, seq![EventV::HeaderBytes(b)] + rest);
            &&& r.0 == (SessionState::Done { end: SessionEnd::FramingError })
            &&& forall|i: int| 0 <= i < r.1.len() ==> !(#[trigger] r.1[i] is WriteReply)
            &&& client_bytes(r.1) == Seq::<u8>::empty()
        }),
{
    let e = EventV::HeaderBytes(b);
    let done = SessionState::Done { end: SessionEnd::FramingError };
    assert(step_spec(SessionState::AwaitingHeader, e) == (done, ActionV::Stop));
    lemma_run_cons(SessionState::AwaitingHeader, e, rest);
    lemma_run_done(SessionEnd::FramingError, rest);
    lemma_bytes_of_stop(run_spec(done, rest).1);
}

/// States outside the relay loop.
pub open spec fn pre_relay(s: SessionState) -> bool {
    !(s is RelayClientRead) && !(s is RelayUpstreamRead)
}

/// Law: a session in which the upstream connection is never reported
/// open stays out of the relay loop — no relay read, no forwarded
/// byte, no byte back to the client.
pub proof fn lemma_no_relay_without_connect(s: SessionState, events: Seq<EventV>)
    requires
        pre_relay(s),
        forall|i: int| 0 <= i < events.len() ==> !(#[trigger] events[i] is ConnectOk),
    ensures
        ({
            let r = run_spec(s, events);
            &&& pre_relay(r.0)
            &&& forall|i: int| 0 <= i < r.1.len() ==> !is_relay_action(#[trigger] r.1[i])
        }),
    decreases events.len(),
{
    if events.len() == 0 {
    } else if !event_allowed(s, events[0]) {
    } else {
        let first = step_spec(s, events[0]);
        assert(pre_relay(first.0));
        assert(!is_relay_action(first.1));
        lemma_no_relay_without_connect(first.0, events.skip(1));
        let rest = run_spec(first.0, events.skip(1));
        let r = run_spec(s, events);
        assert(r.1 == seq![first.1] + rest.1);
        assert forall|i: int| 0 <= i < r.1.len() implies !is_relay_action(#[trigger] r.1[i]) by {
            if i == 0 {
                assert(r.1[i] == first.1);
            } else {
                assert(r.1[i] == rest.1[i - 1]);
            }
        }
    }
}

/// Law: when the upstream connect fails, the session ends at once
/// with an upstream connect error and never enters the relay loop,
/// even though the granted reply has already been written.
pub proof fn lemma_connect_failure_skips_relay(header: ConnectRequest, rest: Seq<EventV>)
    ensures
        ({
            let r = run_spec(
                SessionState::Connecting { header },
                seq![EventV::ConnectFailed] + rest,
            );
            &&& r.0 == (SessionState::Done { end: SessionEnd::UpstreamConnectError })
            &&& forall|i: int| 0 <= i < r.1.len() ==> !is_relay_action(#[trigger] r.1[i])
        }),
{
    let e = EventV::ConnectFailed;
    let done = SessionState::Done { end: SessionEnd::UpstreamConnectError };
    assert(step_spec(SessionState::Connecting { header }, e) == (done, ActionV::Stop));
    lemma_run_cons(SessionState::Connecting { header }, e, rest);
    lemma_run_done(SessionEnd::UpstreamConnectError, rest);
    let r = run_spec(SessionState::Connecting { header }, seq![e] + rest);
    assert(r.1 =~= seq![ActionV::Stop]);
}

/// Law: when the relay loop's first read from the client returns no
/// bytes, the session ends cleanly, with nothing written to either
/// side.
pub proof fn lemma_immediate_close_is_clean(rest: Seq<EventV>)
    ensures
        ({
            let r = run_spec(
                SessionState::RelayClientRead,
                seq![EventV::ClientData(Seq::<u8>::empty())] + rest,
            );
            &&& r.0 == (SessionState::Done { end: SessionEnd::CleanClose })
            &&& client_bytes(r.1) == Seq::<u8>::empty()
            &&& upstream_bytes(r.1) == Seq::<u8>::empty()
        }),
{
    let e = EventV::ClientData(Seq::<u8>::empty());
    let done = SessionState::Done { end: SessionEnd::CleanClose };
    assert(step_spec(SessionState::RelayClientRead, e) == (done, ActionV::Stop));
    lemma_run_cons(SessionState::RelayClientRead, e, rest);
    lemma_run_done(SessionEnd::CleanClose, rest);
    lemma_bytes_of_stop(run_spec(done, rest).1);
}

/// The events that deliver a client id byte by byte, terminator
/// excluded.
pub open spec fn id_events(id: Seq<u8>) -> Seq<EventV>
    decreases id.len(),
{
    if id.len() == 0 {
        Seq::<EventV>::empty()
    } else {
        seq![EventV::IdByte(id[0])] + id_events(id.skip(1))
    }
}

proof fn lemma_id_bytes_keep_header(header: ConnectRequest, id: Seq<u8>, rest: Seq<EventV>)
    requires
        forall|i: int| 0 <= i < id.len() ==> id[i] != 0,
    ensures
        ({
            let r = run_spec(SessionState::AwaitingId { header }, id_events(id) + rest);
            let r2 = run_spec(SessionState::AwaitingId { header }, rest);
            &&& r.0 == r2.0
            &&& r.1 == Seq::new(id.len(), |i: int| ActionV::ReadIdByte) + r2.1
        }),
    decreases id.len(),
{
    let r2 = run_spec(SessionState::AwaitingId { header }, rest);
    if id.len() == 0 {
        assert(id_events(id) + rest =~= rest);
        assert(Seq::new(0, |i: int| ActionV::ReadIdByte) + r2.1 =~= r2.1);
    } else {
        let x = id[0];
        let tail = id.skip(1);
        assert(x != 0);
        assert(id_events(id) + rest =~= seq![EventV::IdByte(x)] + (id_events(tail) + rest));
        assert(step_spec(SessionState::AwaitingId { header }, EventV::IdByte(x))
            == (SessionState::AwaitingId { header }, ActionV::ReadIdByte));
        lemma_run_cons(SessionState::AwaitingId { header }, EventV::IdByte(x), id_events(tail) + rest);
        assert(forall|i: int| 0 <= i < tail.len() ==> tail[i] != 0);
        lemma_id_bytes_keep_header(header, tail, rest);
        let r = run_spec(SessionState::AwaitingId { header }, id_events(id) + rest);
        assert(r.1 =~= Seq::new(id.len(), |i: int| ActionV::ReadIdByte) + r2.1);
    }
}

/// Law: the handshake always grants. For any eight header bytes —
/// whatever version, command and destination they carry — and any
/// client id, the actions up to the reply are exactly the id reads
/// and then one reply write, and the reply written is the granted
/// reply for the decoded header: status granted, bound port zero,
/// bound address echoing the requested destination.
pub proof fn lemma_handshake_always_grants(b: Seq<u8>, id: Seq<u8>, rest: Seq<EventV>)
    requires
        b.len() == 8,
        forall|i: int| 0 <= i < id.len() ==> id[i] != 0,
    ensures
        ({
            let events = seq![EventV::HeaderBytes(b)]
                + (id_events(id) + (seq![EventV::IdByte(0)] + rest));
            let header = request_of_bytes(b);
            let r = run_spec(SessionState::AwaitingHeader, events);
            let r2 = run_spec(SessionState::SendingReply { header }, rest);
            &&& r.0 == r2.0
            &&& r.1 == seq![ActionV::ReadIdByte]
                + (Seq::new(id.len(), |i: int| ActionV::ReadIdByte)
                    + (seq![ActionV::WriteReply(granted_reply(header))] + r2.1))
        }),
{
    let header = request_of_bytes(b);
    let after_header = id_events(id) + (seq![EventV::IdByte(0)] + rest);
    assert(step_spec(SessionState::AwaitingHeader, EventV::HeaderBytes(b))
        == (SessionState::AwaitingId { header }, ActionV::ReadIdByte));
    lemma_run_cons(SessionState::AwaitingHeader, EventV::HeaderBytes(b), after_header);
    lemma_id_bytes_keep_header(header, id, seq![EventV::IdByte(0)] + rest);
    assert(step_spec(SessionState::AwaitingId { header }, EventV::IdByte(0))
        == (SessionState::SendingReply { header }, ActionV::WriteReply(granted_reply(header))));
    lemma_run_cons(SessionState::AwaitingId { header }, EventV::IdByte(0), rest);
    let r = run_spec(
        SessionState::AwaitingHeader,
        seq![EventV::HeaderBytes(b)] + after_header,
    );
    let r2 = run_spec(SessionState::SendingReply { header }, rest);
    assert(r.1 =~= seq![ActionV::ReadIdByte]
        + (Seq::new(id.len(), |i: int| ActionV::ReadIdByte)
            + (seq![ActionV::WriteReply(granted_reply(header))] + r2.1)));
}

/// The events of a lock-step exchange in which the upstream echoes
/// every forwarded chunk unchanged: for each chunk, a client read
/// delivering it, then an upstream read delivering it back.
pub open spec fn echo_events(chunks: Seq<Seq<u8>>) -> Seq<EventV>
    decreases chunks.len(),
{
    if chunks.len() == 0 {
        Seq::<EventV>::empty()
    } else {
        seq![EventV::ClientData(chunks[0]), EventV::UpstreamData(chunks[0])]
            + echo_events(chunks.skip(1))
    }
}

/// Law: over any number of lock-step cycles in which the upstream
/// echoes each forwarded chunk unchanged, the client gets back
/// exactly the bytes it sent — no byte missing, none added — and the
/// relay is ready for the next cycle.
pub proof fn lemma_lock_step_echo(chunks: Seq<Seq<u8>>)
    requires
        forall|i: int| 0 <= i < chunks.len() ==> (#[trigger] chunks[i]).len() > 0,
    ensures
        ({
            let r = run_spec(SessionState::RelayClientRead, echo_events(chunks));
            &&& r.0 == SessionState::RelayClientRead
            &&& client_bytes(r.1) == chunks.flatten()
            &&& upstream_bytes(r.1) == chunks.flatten()
        }),
    decreases chunks.len(),
{
    if chunks.len() == 0 {
        assert(chunks.flatten() =~= Seq::<u8>::empty());
    } else {
        let c = chunks[0];
        let tail = chunks.skip(1);
        assert(c.len() > 0);
        let ev2 = seq![EventV::UpstreamData(c)] + echo_events(tail);
        assert(echo_events(chunks) =~= seq![EventV::ClientData(c)] + ev2);
        assert(step_spec(SessionState::RelayClientRead, EventV::ClientData(c))
            == (SessionState::RelayUpstreamRead, ActionV::WriteUpstream(c)));
        assert(step_spec(SessionState::RelayUpstreamRead, EventV::UpstreamData(c))
            == (SessionState::RelayClientRead, ActionV::WriteClient(c)));
        assert(forall|i: int| 0 <= i < tail.len() ==> (#[trigger] tail[i]).len() > 0);
        lemma_lock_step_echo(tail);
        let rr = run_spec(SessionState::RelayClientRead, echo_events(tail));
        lemma_run_cons(SessionState::RelayUpstreamRead, EventV::UpstreamData(c), echo_events(tail));
        let r1 = run_spec(SessionState::RelayUpstreamRead, ev2);
        assert(r1 == (rr.0, seq![ActionV::WriteClient(c)] + rr.1));
        lemma_run_cons(SessionState::RelayClientRead, EventV::ClientData(c), ev2);
        let r = run_spec(SessionState::RelayClientRead, echo_events(chunks));
        assert(r == (r1.0, seq![ActionV::WriteUpstream(c)] + r1.1));
        lemma_bytes_cons(ActionV::WriteClient(c), rr.1);
        lemma_bytes_cons(ActionV::WriteUpstream(c), seq![ActionV::WriteClient(c)] + rr.1);
        assert(chunks.flatten() == c + tail.flatten()) by {
            assert(chunks.drop_first() =~= tail);
            assert(chunks.first() == c);
        }
        assert(client_bytes(r.1) =~= chunks.flatten());
        assert(upstream_bytes(r.1) =~= chunks.flatten());
    }
}

} // verus!
