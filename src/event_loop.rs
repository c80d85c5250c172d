//! The supervisory loop: one event per iteration, drawn from the ready
//! sources in a fixed priority order, turned into engine actions and, at the
//! end, into the process's result.
use vstd::prelude::*;
use crate::ipc::{parse_client, IpcClientMsg, TAG_SET_DNS, lemma_unknown_tag_rejected};

verus! {

/// A request delivered by the platform's signal source.
#[derive(Debug, Clone, Copy, PartialEq, Eq, Structural)]
pub enum SignalKind {
    /// Soft request for a fresh connection attempt.
    Hangup,
    /// Graceful shutdown request.
    Interrupt,
}

/// What the engine's disconnect-notification channel yielded.
#[derive(Debug, Clone, PartialEq, Eq)]
pub enum DisconnectNote {
    /// The engine gave up on the session, with this error text.
    Error(String),
    /// The channel closed without delivering a message.
    Closed,
}

/// What arrived on the control connection.
#[derive(Debug, Clone, PartialEq, Eq)]
pub enum Inbound {
    Message(IpcClientMsg),
    /// Bytes that do not decode to a known message.
    Malformed,
}

/// One event handled by one iteration of the loop.
#[derive(Debug, Clone, PartialEq, Eq)]
pub enum Event {
    Disconnected(DisconnectNote),
    Signal(SignalKind),
    Ipc(Inbound),
    /// The engine configured the tunnel interface.
    TunnelReady,
}

/// The sources that are ready at the start of an iteration.
#[derive(Debug, Clone, PartialEq, Eq)]
pub struct Readiness {
    pub disconnect: Option<DisconnectNote>,
    pub signal: Option<SignalKind>,
    pub ipc: Option<Inbound>,
    pub tunnel_ready: bool,
}

/// Lifecycle of the one session the loop may own.
#[derive(Debug, Clone, Copy, PartialEq, Eq, Structural)]
pub enum Phase {
    Connecting,
    Connected,
    Reconnecting,
    Disconnected,
}

/// An operation for the host to perform on the engine or the connection.
#[derive(Debug, Clone, PartialEq, Eq)]
pub enum Action {
    Connect { api_url: String, token: String },
    Disconnect,
    Reconnect,
    SetDns(Vec<String>),
    /// Tear down the control connection that sent malformed input.
    DropConnection,
}

/// Why the loop ended with a failure.
#[derive(Debug, Clone, PartialEq, Eq)]
pub enum LoopError {
    /// The engine reported a terminal disconnect, with this text.
    Engine(String),
    /// The disconnect-notification channel closed without a message.
    UnexpectedChannelClose,
}

/// Whether the loop goes on after an event.
#[derive(Debug, PartialEq, Eq)]
pub enum Outcome {
    Continue,
    Exit(Result<(), LoopError>),
}

/// The loop's state.
#[derive(Debug, Clone, Copy, PartialEq, Eq, Structural)]
pub struct LoopState {
    pub phase: Phase,
}

pub open spec fn owns_session(s: LoopState) -> bool {
    s.phase != Phase::Disconnected
}

/// The actions that end the owned session, if there is one.
pub open spec fn release(s: LoopState) -> Seq<Action> {
    if owns_session(s) {
        seq![Action::Disconnect]
    } else {
        seq![]
    }
}

/// The event that an iteration handles: the disconnect notification first,
/// then a signal, then control input, then tunnel readiness.
pub open spec fn selected(r: Readiness) -> Option<Event> {
    if r.disconnect is Some {
        Some(Event::Disconnected(r.disconnect->0))
    } else if r.signal is Some {
        Some(Event::Signal(r.signal->0))
    } else if r.ipc is Some {
        Some(Event::Ipc(r.ipc->0))
    } else if r.tunnel_ready {
        Some(Event::TunnelReady)
    } else {
        None
    }
}

/// The state after an event, the actions it calls for, and whether the loop
/// goes on.
pub open spec fn next(s: LoopState, e: Event) -> (LoopState, Seq<Action>, Outcome) {
    let gone = LoopState { phase: Phase::Disconnected };
    match e {
        Event::Disconnected(DisconnectNote::Error(text)) => (
            gone,
            release(s),
            Outcome::Exit(Err(LoopError::Engine(text))),
        ),
        Event::Disconnected(DisconnectNote::Closed) => (
            gone,
            release(s),
            Outcome::Exit(Err(LoopError::UnexpectedChannelClose)),
        ),
        Event::Signal(SignalKind::Hangup) => if owns_session(s) {
            (LoopState { phase: Phase::Reconnecting }, seq![Action::Reconnect], Outcome::Continue)
        } else {
            (s, seq![], Outcome::Continue)
        },
        Event::Signal(SignalKind::Interrupt) => (gone, release(s), Outcome::Exit(Ok(()))),
        Event::Ipc(Inbound::Malformed) => (s, seq![Action::DropConnection], Outcome::Continue),
        Event::Ipc(Inbound::Message(m)) => match m {
            IpcClientMsg::Connect { api_url, token } => if owns_session(s) {
                (s, seq![], Outcome::Continue)
            } else {
                (
                    LoopState { phase: Phase::Connecting },
                    seq![Action::Connect { api_url, token }],
                    Outcome::Continue,
                )
            },
            IpcClientMsg::Disconnect => (gone, release(s), Outcome::Continue),
            IpcClientMsg::Reconnect => if owns_session(s) {
                (LoopState { phase: Phase::Reconnecting }, seq![Action::Reconnect], Outcome::Continue)
            } else {
                (s, seq![], Outcome::Continue)
            },
            IpcClientMsg::SetDns(servers) => if owns_session(s) {
                (s, seq![Action::SetDns(servers)], Outcome::Continue)
            } else {
                (s, seq![], Outcome::Continue)
            },
        },
        Event::TunnelReady => if owns_session(s) {
            (LoopState { phase: Phase::Connected }, seq![], Outcome::Continue)
        } else {
            (s, seq![], Outcome::Continue)
        },
    }
}

/// Feeds `events` to the loop in order, stopping at the first terminal
/// event: the final state, every action called for, and the last outcome.
pub open spec fn run(s: LoopState, events: Seq<Event>) -> (LoopState, Seq<Action>, Outcome)
    decreases events.len(),
{
    if events.len() == 0 {
        (s, seq![], Outcome::Continue)
    } else {
        let (s1, a1, o1) = next(s, events[0]);
        if o1 is Exit {
            (s1, a1, o1)
        } else {
            let (s2, a2, o2) = run(s1, events.drop_first());
            (s2, a1 + a2, o2)
        }
    }
}

pub open spec fn all_hangups(events: Seq<Event>) -> bool {
    forall|i: int| 0 <= i < events.len() ==> events[i] == Event::Signal(SignalKind::Hangup)
}

/// Any run of Hangup signals while a session is owned keeps the loop going:
/// one reconnect per Hangup, nothing else, and the session stays owned.
pub proof fn lemma_hangups_never_terminate(s: LoopState, events: Seq<Event>)
    requires
        owns_session(s),
        all_hangups(events),
    ensures
        run(s, events).1 == Seq::new(events.len(), |i: int| Action::Reconnect),
        run(s, events).2 == Outcome::Continue,
        owns_session(run(s, events).0),
    decreases events.len(),
{
    if events.len() > 0 {
        let rest = events.drop_first();
        assert(all_hangups(rest)) by {
            assert forall|i: int| 0 <= i < rest.len() implies rest[i] == Event::Signal(
                SignalKind::Hangup,
            ) by {
                assert(rest[i] == events[i + 1]);
            }
        }
        let s1 = LoopState { phase: Phase::Reconnecting };
        assert(events[0] == Event::Signal(SignalKind::Hangup));
        lemma_hangups_never_terminate(s1, rest);
        assert(run(s, events).1 =~= Seq::new(events.len(), |i: int| Action::Reconnect));
    }
}

/// The loop never asks the engine to connect while it owns a session, and
/// a connect always leaves it owning one.
pub proof fn lemma_connect_only_without_session(s: LoopState, e: Event)
    ensures
        owns_session(s) ==> forall|i: int|
            0 <= i < next(s, e).1.len() ==> !(#[trigger] next(s, e).1[i] is Connect),
        (exists|i: int| 0 <= i < next(s, e).1.len() && #[trigger] next(s, e).1[i] is Connect)
            ==> owns_session(next(s, e).0),
{
}

/// Every terminal event releases the session: a disconnect is issued
/// exactly when one was owned, and none is owned afterwards.
pub proof fn lemma_exit_releases_session(s: LoopState, e: Event)
    requires
        next(s, e).2 is Exit,
    ensures
        next(s, e).1 == release(s),
        !owns_session(next(s, e).0),
{
}

/// A terminal event ends the loop at once: events after it are never acted
/// on, whatever they are.
pub proof fn lemma_terminal_event_ends_run(s: LoopState, e: Event, later: Seq<Event>)
    requires
        next(s, e).2 is Exit,
    ensures
        run(s, seq![e] + later) == next(s, e),
{
    assert((seq![e] + later)[0] == e);
}

/// A disconnect notification always wins over every other ready source.
pub proof fn lemma_disconnect_has_priority(r: Readiness)
    requires
        r.disconnect is Some,
    ensures
        selected(r) == Some(Event::Disconnected(r.disconnect->0)),
{
}

impl Inbound {
    /// What a frame received on the control connection stands for: the
    /// command it encodes, or malformed input.
    pub fn from_bytes(b: &Vec<u8>) -> (r: Inbound)
        ensures
            r matches Inbound::Message(m) ==> parse_client(b@) == Some(m@),
            r is Malformed <==> parse_client(b@) is None,
    {
        match IpcClientMsg::decode(b) {
            Ok(m) => Inbound::Message(m),
            Err(_) => Inbound::Malformed,
        }
    }
}

/// A frame whose tag names no command is malformed input: the connection
/// that sent it is dropped, no session operation is called and the loop
/// goes on in the same state.
pub proof fn lemma_unknown_variant_only_drops_connection(s: LoopState, b: Seq<u8>)
    requires
        b.len() > 0,
        b[0] > TAG_SET_DNS,
    ensures
        parse_client(b) is None,
        next(s, Event::Ipc(Inbound::Malformed)) == (s, seq![Action::DropConnection], Outcome::Continue),
{
    lemma_unknown_tag_rejected(b);
}

impl LoopState {
    /// A loop that has just asked the engine to connect.
    pub fn new() -> (r: LoopState)
        ensures
            r.phase == Phase::Connecting,
    {
        LoopState { phase: Phase::Connecting }
    }

    /// Whether a session is owned.
    pub fn owns_session(&self) -> (r: bool)
        ensures
            r == owns_session(*self),
    {
        match self.phase {
            Phase::Disconnected => false,
            _ => true,
        }
    }

    fn release(&self) -> (r: Vec<Action>)
        ensures
            r@ == release(*self),
    {
        if self.owns_session() {
            vec![Action::Disconnect]
        } else {
            vec![]
        }
    }

    /// Handles one event: updates the state and returns the actions to
    /// perform, in order, and whether the loop goes on.
    pub fn step(&mut self, e: Event) -> (r: (Vec<Action>, Outcome))
        ensures
            (*final(self), r.0@, r.1) == next(*old(self), e),
    {
        let gone = LoopState { phase: Phase::Disconnected };
        match e {
            Event::Disconnected(DisconnectNote::Error(text)) => {
                let a = self.release();
                *self = gone;
                (a, Outcome::Exit(Err(LoopError::Engine(text))))
            },
            Event::Disconnected(DisconnectNote::Closed) => {
                let a = self.release();
                *self = gone;
                (a, Outcome::Exit(Err(LoopError::UnexpectedChannelClose)))
            },
            Event::Signal(SignalKind::Hangup) => {
                if self.owns_session() {
                    *self = LoopState { phase: Phase::Reconnecting };
                    (vec![Action::Reconnect], Outcome::Continue)
                } else {
                    (vec![], Outcome::Continue)
                }
            },
            Event::Signal(SignalKind::Interrupt) => {
                let a = self.release();
                *self = gone;
                (a, Outcome::Exit(Ok(())))
            },
            Event::Ipc(Inbound::Malformed) => (vec![Action::DropConnection], Outcome::Continue),
            Event::Ipc(Inbound::Message(m)) => match m {
                IpcClientMsg::Connect { api_url, token } => {
                    if self.owns_session() {
                        (vec![], Outcome::Continue)
                    } else {
                        *self = LoopState { phase: Phase::Connecting };
                        (vec![Action::Connect { api_url, token }], Outcome::Continue)
                    }
                },
                IpcClientMsg::Disconnect => {
                    let a = self.release();
                    *self = gone;
                    (a, Outcome::Continue)
                },
                IpcClientMsg::Reconnect => {
                    if self.owns_session() {
                        *self = LoopState { phase: Phase::Reconnecting };
                        (vec![Action::Reconnect], Outcome::Continue)
                    } else {
                        (vec![], Outcome::Continue)
                    }
                },
                IpcClientMsg::SetDns(servers) => {
                    if self.owns_session() {
                        (vec![Action::SetDns(servers)], Outcome::Continue)
                    } else {
                        (vec![], Outcome::Continue)
                    }
                },
            },
            Event::TunnelReady => {
                if self.owns_session() {
                    *self = LoopState { phase: Phase::Connected };
                }
                (vec![], Outcome::Continue)
            },
        }
    }
}

/// The ready sources once the event that [`selected`] picks is taken out.
pub open spec fn after_selection(r: Readiness) -> Readiness {
    if r.disconnect is Some {
        Readiness { disconnect: None, ..r }
    } else if r.signal is Some {
        Readiness { signal: None, ..r }
    } else if r.ipc is Some {
        Readiness { ipc: None, ..r }
    } else {
        Readiness { tunnel_ready: false, ..r }
    }
}

/// Takes out of the ready sources the one event that this iteration
/// handles; the others stay pending for later iterations.
pub fn select_event(r: &mut Readiness) -> (e: Option<Event>)
    ensures
        e == selected(*old(r)),
        *final(r) == after_selection(*old(r)),
{
    if let Some(d) = r.disconnect.take() {
        Some(Event::Disconnected(d))
    } else if let Some(sig) = r.signal.take() {
        Some(Event::Signal(sig))
    } else if let Some(i) = r.ipc.take() {
        Some(Event::Ipc(i))
    } else if r.tunnel_ready {
        r.tunnel_ready = false;
        Some(Event::TunnelReady)
    } else {
        None
    }
}

} // verus!
