//! The transport session: the decisions taken between opening the socket and
//! streaming, and the mode the session then keeps for the rest of its life.
//!
//! The caller owns the socket. It performs each action that the session asks
//! for and reports the outcome as the next event.

use vstd::prelude::*;

verus! {

/// The local UDP port that is bound when none is given.
pub const DEFAULT_LOCAL_PORT: u16 = 40000;

/// Where a session stands.
#[derive(Clone, Copy, Debug, PartialEq, Eq, Structural)]
pub enum Phase {
    /// The local socket is being bound.
    Binding,
    /// The reflexive-address query is under way.
    Discovering,
    /// The socket is being restricted to the peer.
    Connecting,
    /// Streaming without a peer: datagrams are received, none is sent.
    Listening,
    /// Streaming with a peer: datagrams are sent to it and received from it.
    Connected,
    /// Startup failed; nothing streams.
    Failed,
}

/// Why startup failed.
#[derive(Clone, Copy, Debug, PartialEq, Eq, Structural)]
pub enum StartupError {
    /// The local socket could not be bound.
    SocketUnavailable,
    /// The reflexive-address query got no answer.
    DiscoveryFailed,
    /// The socket could not be restricted to the peer.
    PeerUnreachable,
}

/// What the caller reports to the session.
#[derive(Clone, Debug)]
pub enum Event {
    /// The local socket is bound.
    Bound,
    /// The local socket could not be bound.
    BindFailed,
    /// The query answered with this host's address as seen from outside.
    Discovered(String),
    /// The query failed.
    DiscoveryFailed,
    /// The socket is restricted to the peer.
    PeerConnected,
    /// The socket could not be restricted to the peer.
    ConnectFailed,
}

/// What the session asks the caller to do next.
#[derive(Clone, Copy, Debug, PartialEq, Eq, Structural)]
pub enum Action {
    /// Send the reflexive-address query over the bound socket.
    Discover,
    /// Restrict the socket to the session's peer.
    Connect,
    /// Start the send and receive tasks.
    StartStreaming,
    /// Give up: startup failed for this reason.
    Abort(StartupError),
    /// Nothing to do; the event does not belong to the current phase.
    Ignore,
}

/// The session as contracts see it.
pub struct SessionView {
    pub phase: Phase,
    pub peer: Option<Seq<char>>,
    pub public_addr: Option<Seq<char>>,
}

/// The view of a session that has just been created.
pub open spec fn initial(peer: Option<Seq<char>>) -> SessionView {
    SessionView { phase: Phase::Binding, peer, public_addr: None }
}

/// Whether a phase is one of the three in which the session no longer changes.
pub open spec fn settled(phase: Phase) -> bool {
    phase == Phase::Listening || phase == Phase::Connected || phase == Phase::Failed
}

/// The session after `event`.
pub open spec fn next_state(s: SessionView, event: Event) -> SessionView {
    match (s.phase, event) {
        (Phase::Binding, Event::Bound) => SessionView { phase: Phase::Discovering, ..s },
        (Phase::Binding, Event::BindFailed) => SessionView { phase: Phase::Failed, ..s },
        (Phase::Discovering, Event::Discovered(addr)) => SessionView {
            phase: if s.peer is Some {
                Phase::Connecting
            } else {
                Phase::Listening
            },
            public_addr: Some(addr@),
            ..s
        },
        (Phase::Discovering, Event::DiscoveryFailed) => SessionView { phase: Phase::Failed, ..s },
        (Phase::Connecting, Event::PeerConnected) => SessionView { phase: Phase::Connected, ..s },
        (Phase::Connecting, Event::ConnectFailed) => SessionView { phase: Phase::Failed, ..s },
        _ => s,
    }
}

/// What the session asks for in answer to `event`.
pub open spec fn next_action(s: SessionView, event: Event) -> Action {
    match (s.phase, event) {
        (Phase::Binding, Event::Bound) => Action::Discover,
        (Phase::Binding, Event::BindFailed) => Action::Abort(StartupError::SocketUnavailable),
        (Phase::Discovering, Event::Discovered(_)) => if s.peer is Some {
            Action::Connect
        } else {
            Action::StartStreaming
        },
        (Phase::Discovering, Event::DiscoveryFailed) => Action::Abort(
            StartupError::DiscoveryFailed,
        ),
        (Phase::Connecting, Event::PeerConnected) => Action::StartStreaming,
        (Phase::Connecting, Event::ConnectFailed) => Action::Abort(StartupError::PeerUnreachable),
        _ => Action::Ignore,
    }
}

/// What holds of every session that was created and then only stepped: a
/// session that connects has a peer, a session that listens has none, and a
/// session that got past discovery knows its public address.
pub open spec fn consistent(s: SessionView) -> bool {
    &&& (s.phase == Phase::Connecting || s.phase == Phase::Connected) ==> s.peer is Some
    &&& s.phase == Phase::Listening ==> s.peer is None
    &&& (s.phase == Phase::Connecting || s.phase == Phase::Listening || s.phase
        == Phase::Connected) ==> s.public_addr is Some
}

/// A transport session.
pub struct Session {
    phase: Phase,
    peer: Option<String>,
    public_addr: Option<String>,
}

impl View for Session {
    type V = SessionView;

    closed spec fn view(&self) -> SessionView {
        SessionView {
            phase: self.phase,
            peer: match self.peer {
                Some(p) => Some(p@),
                None => None,
            },
            public_addr: match self.public_addr {
                Some(a) => Some(a@),
                None => None,
            },
        }
    }
}

impl Session {
    #[verifier::type_invariant]
    spec fn inv(&self) -> bool {
        consistent(self@)
    }

    /// A session that has not bound its socket yet. With a peer it will
    /// connect to it; without one it will only listen.
    pub fn new(peer: Option<String>) -> (s: Session)
        ensures
            s@ == initial(
                match peer {
                    Some(p) => Some(p@),
                    None => None,
                },
            ),
    {
        Session { phase: Phase::Binding, peer, public_addr: None }
    }

    /// Takes the outcome of the last action and says what to do next.
    pub fn step(&mut self, event: Event) -> (action: Action)
        ensures
            final(self)@ == next_state(old(self)@, event),
            action == next_action(old(self)@, event),
            consistent(final(self)@),
    {
        proof {
            use_type_invariant(&*self);
        }
        match self.phase {
            Phase::Binding => match event {
                Event::Bound => {
                    self.phase = Phase::Discovering;
                    Action::Discover
                },
                Event::BindFailed => {
                    self.phase = Phase::Failed;
                    Action::Abort(StartupError::SocketUnavailable)
                },
                _ => Action::Ignore,
            },
            Phase::Discovering => match event {
                Event::Discovered(addr) => {
                    self.public_addr = Some(addr);
                    if self.peer.is_some() {
                        self.phase = Phase::Connecting;
                        Action::Connect
                    } else {
                        self.phase = Phase::Listening;
                        Action::StartStreaming
                    }
                },
                Event::DiscoveryFailed => {
                    self.phase = Phase::Failed;
                    Action::Abort(StartupError::DiscoveryFailed)
                },
                _ => Action::Ignore,
            },
            Phase::Connecting => match event {
                Event::PeerConnected => {
                    self.phase = Phase::Connected;
                    Action::StartStreaming
                },
                Event::ConnectFailed => {
                    self.phase = Phase::Failed;
                    Action::Abort(StartupError::PeerUnreachable)
                },
                _ => Action::Ignore,
            },
            _ => Action::Ignore,
        }
    }

    /// Where the session stands.
    pub fn phase(&self) -> (p: Phase)
        ensures
            p == self@.phase,
    {
        self.phase
    }

    /// Whether the send and receive tasks run.
    pub fn is_streaming(&self) -> (b: bool)
        ensures
            b == (self@.phase == Phase::Listening || self@.phase == Phase::Connected),
    {
        match self.phase {
            Phase::Listening => true,
            Phase::Connected => true,
            _ => false,
        }
    }

    /// Whether a message taken from the outbound queue is written to the
    /// socket. A session without a peer takes messages from the queue and
    /// writes none.
    pub fn may_transmit(&self) -> (b: bool)
        ensures
            b == (self@.phase == Phase::Connected),
            b ==> self@.peer is Some,
    {
        proof {
            use_type_invariant(self);
        }
        match self.phase {
            Phase::Connected => true,
            _ => false,
        }
    }

    /// The peer that the session was created with.
    pub fn peer(&self) -> (p: Option<&String>)
        ensures
            match p {
                Some(peer) => self@.peer == Some(peer@),
                None => self@.peer is None,
            },
    {
        self.peer.as_ref()
    }

    /// This host's address as seen from outside, once discovery has answered.
    pub fn public_addr(&self) -> (a: Option<&String>)
        ensures
            match a {
                Some(addr) => self@.public_addr == Some(addr@),
                None => self@.public_addr is None,
            },
    {
        self.public_addr.as_ref()
    }
}

/// The session after every event of `events`, in order.
pub open spec fn run(s: SessionView, events: Seq<Event>) -> SessionView
    decreases events.len(),
{
    if events.len() == 0 {
        s
    } else {
        next_state(run(s, events.drop_last()), events.last())
    }
}

/// What the session asks for in answer to the event at index `i` of `events`.
pub open spec fn action_at(s: SessionView, events: Seq<Event>, i: int) -> Action
    recommends
        0 <= i < events.len(),
{
    next_action(run(s, events.take(i)), events[i])
}

/// A new session is consistent.
pub proof fn lemma_new_session_is_consistent(peer: Option<Seq<char>>)
    ensures
        consistent(initial(peer)),
{
}

/// Every step keeps a consistent session consistent.
pub proof fn lemma_step_keeps_consistent(s: SessionView, event: Event)
    requires
        consistent(s),
    ensures
        consistent(next_state(s, event)),
{
}

/// The mode is fixed for the life of the session: once it listens, is
/// connected or has failed, no event changes it or makes it ask for anything.
pub proof fn lemma_settled_is_final(s: SessionView, events: Seq<Event>)
    requires
        settled(s.phase),
    ensures
        run(s, events) == s,
        forall|i: int| 0 <= i < events.len() ==> action_at(s, events, i) == Action::Ignore,
    decreases events.len(),
{
    if events.len() > 0 {
        lemma_settled_is_final(s, events.drop_last());
    }
    assert forall|i: int| 0 <= i < events.len() implies action_at(s, events, i)
        == Action::Ignore by {
        lemma_settled_is_final(s, events.take(i));
    }
}

/// A failed discovery is fatal at once: the session asks the caller to give
/// up, and whatever is reported afterwards it never asks for streaming, or
/// for anything else.
pub proof fn lemma_failed_discovery_is_fatal(s: SessionView, events: Seq<Event>)
    requires
        s.phase == Phase::Discovering,
        events.len() > 0,
        events[0] is DiscoveryFailed,
    ensures
        action_at(s, events, 0) == Action::Abort(StartupError::DiscoveryFailed),
        forall|i: int| 1 <= i < events.len() ==> action_at(s, events, i) == Action::Ignore,
        run(s, events).phase == Phase::Failed,
{
    let failed = SessionView { phase: Phase::Failed, ..s };
    let rest = events.skip(1);
    assert(events.take(0) == Seq::<Event>::empty());
    lemma_run_from_first(s, events);
    lemma_settled_is_final(failed, rest);
    assert forall|i: int| 1 <= i < events.len() implies action_at(s, events, i)
        == Action::Ignore by {
        lemma_run_from_first(s, events.take(i));
        assert(events.take(i).skip(1) == rest.take(i - 1));
        lemma_settled_is_final(failed, rest.take(i - 1));
        assert(events[i] == rest[i - 1]);
    }
}

/// Running a non-empty sequence of events is taking the first and then
/// running the rest.
pub proof fn lemma_run_from_first(s: SessionView, events: Seq<Event>)
    requires
        events.len() > 0,
    ensures
        run(s, events) == run(next_state(s, events[0]), events.skip(1)),
    decreases events.len(),
{
    if events.len() == 1 {
        assert(events.drop_last() == Seq::<Event>::empty());
        assert(events.skip(1) == Seq::<Event>::empty());
        assert(events.last() == events[0]);
    } else {
        let init = events.drop_last();
        lemma_run_from_first(s, init);
        assert(init[0] == events[0]);
        assert(init.skip(1) == events.skip(1).drop_last());
        assert(events.skip(1).last() == events.last());
    }
}

/// Whether one of the first `n` events reports a discovered address.
pub open spec fn discovered_within(events: Seq<Event>, n: int) -> bool {
    exists|j: int| 0 <= j < n && j < events.len() && #[trigger] events[j] is Discovered
}

/// Streaming waits for discovery: a new session asks for streaming, or for a
/// connection to the peer, only when the address query has answered.
pub proof fn lemma_streaming_needs_discovery(peer: Option<Seq<char>>, events: Seq<Event>, i: int)
    requires
        0 <= i < events.len(),
        action_at(initial(peer), events, i) == Action::StartStreaming || action_at(
            initial(peer),
            events,
            i,
        ) == Action::Connect,
    ensures
        discovered_within(events, i + 1),
{
    let before = run(initial(peer), events.take(i));
    lemma_past_discovery(peer, events.take(i));
    if before.phase == Phase::Discovering {
        assert(events[i] is Discovered);
    } else {
        let j = choose|j: int| 0 <= j < i && #[trigger] events.take(i)[j] is Discovered;
        assert(events[j] is Discovered);
    }
}

/// A new session that has reached the connecting phase, or streams, has
/// seen the address query answer.
pub proof fn lemma_past_discovery(peer: Option<Seq<char>>, events: Seq<Event>)
    ensures
        ({
            let phase = run(initial(peer), events).phase;
            phase == Phase::Connecting || phase == Phase::Listening || phase == Phase::Connected
        }) ==> discovered_within(events, events.len() as int),
        consistent(run(initial(peer), events)),
        run(initial(peer), events).peer == peer,
    decreases events.len(),
{
    if events.len() > 0 {
        let init = events.drop_last();
        lemma_past_discovery(peer, init);
        let before = run(initial(peer), init);
        let phase = run(initial(peer), events).phase;
        if phase == Phase::Connecting || phase == Phase::Listening || phase == Phase::Connected {
            if before.phase == Phase::Discovering {
                assert(events[events.len() - 1] is Discovered);
            } else {
                let j = choose|j: int| 0 <= j < init.len() && #[trigger] init[j] is Discovered;
                assert(events[j] is Discovered);
            }
        }
    }
}

/// A session without a peer is listen-only for life: whatever is reported, it
/// is never connected, so it never transmits, and it never asks to connect.
pub proof fn lemma_listen_only_never_transmits(events: Seq<Event>)
    ensures
        run(initial(None), events).phase != Phase::Connected,
        run(initial(None), events).phase != Phase::Connecting,
        forall|i: int| 0 <= i < events.len() ==> action_at(initial(None), events, i)
            != Action::Connect,
{
    lemma_past_discovery(None, events);
    assert forall|i: int| 0 <= i < events.len() implies action_at(initial(None), events, i)
        != Action::Connect by {
        lemma_past_discovery(None, events.take(i));
    }
}

} // verus!
