//! The duplex relay: two copy directions that run side by side and end
//! together.
//!
//! The relay performs no I/O. The program that owns the streams reports what
//! its reads and writes came to, one event at a time, and is told what to do
//! next. The session ends with the first direction that ends: whichever
//! closes or fails first has the other one cancelled.

use vstd::prelude::*;

verus! {

/// One half of the relay.
#[derive(Clone, Copy, Debug, PartialEq, Eq, Structural)]
pub enum Direction {
    /// Remote peer to local display, bytes copied as they are.
    Inbound,
    /// Local input to remote peer, through the line-ending normalizer.
    Outbound,
}

impl Direction {
    /// The opposite direction.
    pub open spec fn spec_other(self) -> Direction {
        match self {
            Direction::Inbound => Direction::Outbound,
            Direction::Outbound => Direction::Inbound,
        }
    }

    /// The opposite direction.
    #[verifier::when_used_as_spec(spec_other)]
    pub fn other(self) -> (d: Direction)
        ensures
            d == self.spec_other(),
    {
        match self {
            Direction::Inbound => Direction::Outbound,
            Direction::Outbound => Direction::Inbound,
        }
    }
}

/// Where one direction stands.
#[derive(Clone, Copy, Debug, PartialEq, Eq, Structural)]
pub enum DirectionState {
    /// Not started yet.
    Idle,
    /// Reading from its source and writing to its destination.
    Copying,
    /// Its source signalled end of stream.
    Closed,
    /// A read or a write failed.
    Failed,
}

/// What the owner of the streams reports about one direction.
#[derive(Clone, Copy, Debug, PartialEq, Eq, Structural)]
pub enum CopyEvent {
    /// The direction has been scheduled for the first time.
    Start,
    /// A read returned a chunk that is not empty.
    Chunk,
    /// The last write has been accepted and flushed.
    Flushed,
    /// A read signalled end of stream.
    EndOfStream,
    /// A read failed.
    ReadFailed,
    /// A write or a flush failed.
    WriteFailed,
}

impl CopyEvent {
    /// Whether the event ends a direction that is copying.
    pub open spec fn spec_is_final(self) -> bool {
        self == CopyEvent::EndOfStream || self == CopyEvent::ReadFailed || self
            == CopyEvent::WriteFailed
    }

    /// Whether the event ends a direction that is copying.
    #[verifier::when_used_as_spec(spec_is_final)]
    pub fn is_final(self) -> (b: bool)
        ensures
            b == self.spec_is_final(),
    {
        match self {
            CopyEvent::EndOfStream | CopyEvent::ReadFailed | CopyEvent::WriteFailed => true,
            _ => false,
        }
    }

    /// The event that a read amounts to. `read` is the number of bytes that
    /// the read made available, or `None` if it failed; a read that makes no
    /// byte available has reached the end of the stream.
    pub fn of_read(read: Option<usize>) -> (event: CopyEvent)
        ensures
            event == match read {
                None => CopyEvent::ReadFailed,
                Some(n) => if n == 0 {
                    CopyEvent::EndOfStream
                } else {
                    CopyEvent::Chunk
                },
            },
    {
        match read {
            None => CopyEvent::ReadFailed,
            Some(n) => if n == 0 {
                CopyEvent::EndOfStream
            } else {
                CopyEvent::Chunk
            },
        }
    }

    /// The event that a write followed by a flush amounts to. `delivered`
    /// says whether both succeeded.
    pub fn of_write(delivered: bool) -> (event: CopyEvent)
        ensures
            event == if delivered {
                CopyEvent::Flushed
            } else {
                CopyEvent::WriteFailed
            },
    {
        if delivered {
            CopyEvent::Flushed
        } else {
            CopyEvent::WriteFailed
        }
    }
}

impl DirectionState {
    /// Whether the direction has ended.
    pub open spec fn spec_is_terminal(self) -> bool {
        self == DirectionState::Closed || self == DirectionState::Failed
    }

    /// Whether the direction has ended.
    #[verifier::when_used_as_spec(spec_is_terminal)]
    pub fn is_terminal(self) -> (b: bool)
        ensures
            b == self.spec_is_terminal(),
    {
        match self {
            DirectionState::Closed | DirectionState::Failed => true,
            _ => false,
        }
    }

    /// The state that `event` leads to. An idle direction waits for its
    /// start, a copying one goes on until its source ends or an operation
    /// fails, and one that has ended stays as it is.
    pub open spec fn spec_after(self, event: CopyEvent) -> DirectionState {
        match (self, event) {
            (DirectionState::Idle, CopyEvent::Start) => DirectionState::Copying,
            (DirectionState::Copying, CopyEvent::EndOfStream) => DirectionState::Closed,
            (DirectionState::Copying, CopyEvent::ReadFailed) => DirectionState::Failed,
            (DirectionState::Copying, CopyEvent::WriteFailed) => DirectionState::Failed,
            _ => self,
        }
    }

    /// The state that `event` leads to.
    #[verifier::when_used_as_spec(spec_after)]
    pub fn after(self, event: CopyEvent) -> (next: DirectionState)
        ensures
            next == self.spec_after(event),
    {
        match (self, event) {
            (DirectionState::Idle, CopyEvent::Start) => DirectionState::Copying,
            (DirectionState::Copying, CopyEvent::EndOfStream) => DirectionState::Closed,
            (DirectionState::Copying, CopyEvent::ReadFailed) => DirectionState::Failed,
            (DirectionState::Copying, CopyEvent::WriteFailed) => DirectionState::Failed,
            _ => self,
        }
    }
}

/// Where the session as a whole stands.
#[derive(Clone, Copy, Debug, PartialEq, Eq, Structural)]
pub enum SessionState {
    /// Neither direction has ended.
    Running,
    /// One direction has ended and the other is being cancelled.
    Draining,
    /// The cancelled direction is gone: the session is over.
    Terminated,
}

/// Why the session ended: which direction ended first, and how.
#[derive(Clone, Copy, Debug, PartialEq, Eq, Structural)]
pub enum Outcome {
    /// The remote peer closed the stream.
    InboundClosed,
    /// Local input came to its end.
    OutboundClosed,
    /// Reading from the peer or writing to the display failed.
    InboundError,
    /// Reading local input or writing to the peer failed.
    OutboundError,
}

/// What the owner of the streams is to do after an event.
#[derive(Clone, Copy, Debug, PartialEq, Eq, Structural)]
pub enum RelayAction {
    /// Write the preamble through the normalizer and flush, then report
    /// `Flushed` or `WriteFailed`. Only the outbound direction is told so,
    /// and only at its start.
    SendPreamble,
    /// Read the next chunk from the direction's source, then report `Chunk`,
    /// `EndOfStream` or `ReadFailed`.
    Read,
    /// Write the chunk just read to the direction's destination and flush,
    /// then report `Flushed` or `WriteFailed`.
    WriteAndFlush,
    /// The direction that reported has ended, and the session with it:
    /// cancel the direction named here.
    Cancel(Direction),
    /// The session is over for the direction that reported: it stops.
    Stop,
    /// The event asks for nothing.
    Nothing,
}

/// The relay as contracts see it.
pub struct RelayState {
    /// Where the inbound direction stands.
    pub inbound: DirectionState,
    /// Where the outbound direction stands.
    pub outbound: DirectionState,
    /// Whether the cancelled direction has been seen to stop.
    pub acknowledged: bool,
}

impl RelayState {
    /// The relay at the start of a session.
    pub open spec fn initial() -> RelayState {
        RelayState {
            inbound: DirectionState::Idle,
            outbound: DirectionState::Idle,
            acknowledged: false,
        }
    }

    /// What every relay satisfies: at most one direction has ended, because
    /// the other is cancelled at that moment, and a cancellation is
    /// acknowledged only after one was asked for.
    pub open spec fn wf(self) -> bool {
        &&& !(self.inbound.is_terminal() && self.outbound.is_terminal())
        &&& self.acknowledged ==> self.inbound.is_terminal() || self.outbound.is_terminal()
    }

    /// Where the given direction stands.
    pub open spec fn direction(self, direction: Direction) -> DirectionState {
        match direction {
            Direction::Inbound => self.inbound,
            Direction::Outbound => self.outbound,
        }
    }

    /// This relay with the given direction in the given state.
    pub open spec fn with_direction(self, direction: Direction, state: DirectionState) -> RelayState {
        match direction {
            Direction::Inbound => RelayState { inbound: state, ..self },
            Direction::Outbound => RelayState { outbound: state, ..self },
        }
    }

    /// Where the session stands.
    pub open spec fn session(self) -> SessionState {
        if !self.inbound.is_terminal() && !self.outbound.is_terminal() {
            SessionState::Running
        } else if !self.acknowledged {
            SessionState::Draining
        } else {
            SessionState::Terminated
        }
    }

    /// Why the session ended, once it has.
    pub open spec fn outcome(self) -> Option<Outcome> {
        match (self.inbound, self.outbound) {
            (DirectionState::Closed, _) => Some(Outcome::InboundClosed),
            (DirectionState::Failed, _) => Some(Outcome::InboundError),
            (_, DirectionState::Closed) => Some(Outcome::OutboundClosed),
            (_, DirectionState::Failed) => Some(Outcome::OutboundError),
            _ => None,
        }
    }

    /// The relay after `event` has been reported for `direction`. While the
    /// session is running the event moves that direction; afterwards nothing
    /// moves any more.
    pub open spec fn after_event(self, direction: Direction, event: CopyEvent) -> RelayState {
        if self.session() == SessionState::Running {
            self.with_direction(direction, self.direction(direction).after(event))
        } else {
            self
        }
    }

    /// What is to be done after `event` has been reported for `direction`.
    pub open spec fn action_for(self, direction: Direction, event: CopyEvent) -> RelayAction {
        if self.session() != SessionState::Running {
            RelayAction::Stop
        } else {
            match (self.direction(direction), event) {
                (DirectionState::Idle, CopyEvent::Start) => match direction {
                    Direction::Inbound => RelayAction::Read,
                    Direction::Outbound => RelayAction::SendPreamble,
                },
                (DirectionState::Copying, CopyEvent::Chunk) => RelayAction::WriteAndFlush,
                (DirectionState::Copying, CopyEvent::Flushed) => RelayAction::Read,
                (DirectionState::Copying, CopyEvent::EndOfStream) => RelayAction::Cancel(
                    direction.other(),
                ),
                (DirectionState::Copying, CopyEvent::ReadFailed) => RelayAction::Cancel(
                    direction.other(),
                ),
                (DirectionState::Copying, CopyEvent::WriteFailed) => RelayAction::Cancel(
                    direction.other(),
                ),
                _ => RelayAction::Nothing,
            }
        }
    }

    /// The relay after the cancelled direction has been seen to stop.
    pub open spec fn after_acknowledgement(self) -> RelayState {
        if self.session() == SessionState::Draining {
            RelayState { acknowledged: true, ..self }
        } else {
            self
        }
    }
}

/// The outcome of a session that `direction` ends with `event`.
pub open spec fn outcome_of(direction: Direction, event: CopyEvent) -> Outcome {
    match (direction, event) {
        (Direction::Inbound, CopyEvent::EndOfStream) => Outcome::InboundClosed,
        (Direction::Inbound, _) => Outcome::InboundError,
        (Direction::Outbound, CopyEvent::EndOfStream) => Outcome::OutboundClosed,
        (Direction::Outbound, _) => Outcome::OutboundError,
    }
}

/// The relay after a run of events, each reported for its direction.
pub open spec fn after_events(state: RelayState, events: Seq<(Direction, CopyEvent)>) -> RelayState
    decreases events.len(),
{
    if events.len() == 0 {
        state
    } else {
        after_events(state, events.drop_last()).after_event(events.last().0, events.last().1)
    }
}

/// Every step keeps a relay well formed, and a session never goes back. One
/// that has left the running state is moved by no event. A running one
/// starts draining exactly when a copying direction reports its end, and no
/// event takes it any further than that. What one direction reports never
/// moves the other.
pub proof fn lemma_step(state: RelayState, direction: Direction, event: CopyEvent)
    requires
        state.wf(),
    ensures
        state.after_event(direction, event).wf(),
        state.after_acknowledgement().wf(),
        state.after_event(direction, event).direction(direction.other()) == state.direction(
            direction.other(),
        ),
        state.session() != SessionState::Running ==> state.after_event(direction, event) == state,
        state.session() == SessionState::Running ==> state.after_event(direction, event).session()
            == (if state.direction(direction) == DirectionState::Copying && event.is_final() {
            SessionState::Draining
        } else {
            SessionState::Running
        }),
{
}

/// The session is over only after a direction has ended and its
/// cancellation of the other has been acknowledged; until a direction ends
/// an acknowledgement changes nothing.
pub proof fn lemma_termination(state: RelayState)
    requires
        state.wf(),
    ensures
        state.session() == SessionState::Running <==> state.outcome() is None,
        state.session() == SessionState::Running ==> state.after_acknowledgement() == state,
        state.session() != SessionState::Running ==> state.after_acknowledgement().session()
            == SessionState::Terminated,
        state.after_acknowledgement().outcome() == state.outcome(),
{
}

/// However long a run of events, a relay stays well formed.
pub proof fn lemma_events_keep_relay_well_formed(
    state: RelayState,
    events: Seq<(Direction, CopyEvent)>,
)
    requires
        state.wf(),
    ensures
        after_events(state, events).wf(),
    decreases events.len(),
{
    if events.len() > 0 {
        lemma_events_keep_relay_well_formed(state, events.drop_last());
    }
}

/// Once a session has left the running state, no run of events moves it.
pub proof fn lemma_outcome_is_final(state: RelayState, events: Seq<(Direction, CopyEvent)>)
    requires
        state.session() != SessionState::Running,
    ensures
        after_events(state, events) == state,
    decreases events.len(),
{
    if events.len() > 0 {
        lemma_outcome_is_final(state, events.drop_last());
    }
}

/// The first direction to end decides the session. When a copying direction
/// of a running session reports its end, the other direction is to be
/// cancelled and the session drains with that outcome, and nothing that is
/// reported later, by either direction, changes it.
pub proof fn lemma_first_closer_wins(
    state: RelayState,
    direction: Direction,
    event: CopyEvent,
    later: Seq<(Direction, CopyEvent)>,
)
    requires
        state.wf(),
        state.session() == SessionState::Running,
        state.direction(direction) == DirectionState::Copying,
        event.is_final(),
    ensures
        state.action_for(direction, event) == RelayAction::Cancel(direction.other()),
        state.after_event(direction, event).session() == SessionState::Draining,
        state.after_event(direction, event).outcome() == Some(outcome_of(direction, event)),
        state.after_event(direction, event).direction(direction.other()) == state.direction(
            direction.other(),
        ),
        after_events(state.after_event(direction, event), later) == state.after_event(
            direction,
            event,
        ),
{
    lemma_outcome_is_final(state.after_event(direction, event), later);
}

/// What the relay asks for when event number `i` of a run that began in
/// `state` is reported.
pub open spec fn action_at(state: RelayState, events: Seq<(Direction, CopyEvent)>, i: int) -> RelayAction {
    after_events(state, events.take(i)).action_for(events[i].0, events[i].1)
}

/// The outbound direction of a session leaves the idle state only by being
/// asked to send the preamble.
proof fn lemma_outbound_started_with_preamble(events: Seq<(Direction, CopyEvent)>, k: int)
    requires
        0 <= k <= events.len(),
        after_events(RelayState::initial(), events.take(k)).outbound != DirectionState::Idle,
    ensures
        exists|j: int|
            0 <= j < k && #[trigger] action_at(RelayState::initial(), events, j)
                == RelayAction::SendPreamble,
    decreases k,
{
    if k > 0 {
        let before = after_events(RelayState::initial(), events.take(k - 1));
        assert(events.take(k).drop_last() =~= events.take(k - 1));
        if before.outbound != DirectionState::Idle {
            lemma_outbound_started_with_preamble(events, k - 1);
        } else {
            assert(action_at(RelayState::initial(), events, k - 1) == RelayAction::SendPreamble);
        }
    }
}

/// The preamble goes first. In a session that is run from its start, local
/// input is read only when the write before it has been flushed, and only
/// after the preamble has been asked for.
pub proof fn lemma_preamble_is_asked_for_first(events: Seq<(Direction, CopyEvent)>, i: int)
    requires
        0 <= i < events.len(),
        events[i].0 == Direction::Outbound,
        action_at(RelayState::initial(), events, i) == RelayAction::Read,
    ensures
        events[i].1 == CopyEvent::Flushed,
        exists|j: int|
            0 <= j < i && #[trigger] action_at(RelayState::initial(), events, j)
                == RelayAction::SendPreamble,
{
    lemma_outbound_started_with_preamble(events, i);
}

/// The coordinator of one session.
pub struct DuplexRelay {
    inbound: DirectionState,
    outbound: DirectionState,
    acknowledged: bool,
}

impl View for DuplexRelay {
    type V = RelayState;

    closed spec fn view(&self) -> RelayState {
        RelayState {
            inbound: self.inbound,
            outbound: self.outbound,
            acknowledged: self.acknowledged,
        }
    }
}

impl DuplexRelay {
    #[verifier::type_invariant]
    spec fn well_formed(self) -> bool {
        self@.wf()
    }

    /// A relay for a new session: running, with both directions idle.
    pub fn new() -> (relay: DuplexRelay)
        ensures
            relay@ == RelayState::initial(),
    {
        DuplexRelay {
            inbound: DirectionState::Idle,
            outbound: DirectionState::Idle,
            acknowledged: false,
        }
    }

    /// Takes in what happened on `direction` and says what to do next.
    pub fn on_event(&mut self, direction: Direction, event: CopyEvent) -> (action: RelayAction)
        ensures
            final(self)@ == old(self)@.after_event(direction, event),
            action == old(self)@.action_for(direction, event),
            final(self)@.wf(),
    {
        proof {
            use_type_invariant(&*self);
        }
        if self.inbound.is_terminal() || self.outbound.is_terminal() {
            return RelayAction::Stop;
        }
        let current = match direction {
            Direction::Inbound => self.inbound,
            Direction::Outbound => self.outbound,
        };
        let next = current.after(event);
        match direction {
            Direction::Inbound => {
                self.inbound = next;
            },
            Direction::Outbound => {
                self.outbound = next;
            },
        }
        if next.is_terminal() {
            RelayAction::Cancel(direction.other())
        } else {
            match (current, event) {
                (DirectionState::Idle, CopyEvent::Start) => match direction {
                    Direction::Inbound => RelayAction::Read,
                    Direction::Outbound => RelayAction::SendPreamble,
                },
                (DirectionState::Copying, CopyEvent::Chunk) => RelayAction::WriteAndFlush,
                (DirectionState::Copying, CopyEvent::Flushed) => RelayAction::Read,
                _ => RelayAction::Nothing,
            }
        }
    }

    /// Takes in that the cancelled direction has stopped. This ends a
    /// draining session and changes nothing otherwise.
    pub fn acknowledge_cancellation(&mut self)
        ensures
            final(self)@ == old(self)@.after_acknowledgement(),
            final(self)@.wf(),
    {
        proof {
            use_type_invariant(&*self);
        }
        if self.inbound.is_terminal() || self.outbound.is_terminal() {
            self.acknowledged = true;
        }
    }

    /// Where the session stands.
    pub fn session(&self) -> (state: SessionState)
        ensures
            state == self@.session(),
            self@.wf(),
    {
        proof {
            use_type_invariant(self);
        }
        if !self.inbound.is_terminal() && !self.outbound.is_terminal() {
            SessionState::Running
        } else if !self.acknowledged {
            SessionState::Draining
        } else {
            SessionState::Terminated
        }
    }

    /// Why the session ended, or `None` while it is running.
    pub fn outcome(&self) -> (outcome: Option<Outcome>)
        ensures
            outcome == self@.outcome(),
    {
        match (self.inbound, self.outbound) {
            (DirectionState::Closed, _) => Some(Outcome::InboundClosed),
            (DirectionState::Failed, _) => Some(Outcome::InboundError),
            (_, DirectionState::Closed) => Some(Outcome::OutboundClosed),
            (_, DirectionState::Failed) => Some(Outcome::OutboundError),
            _ => None,
        }
    }

    /// Where the given direction stands.
    pub fn direction(&self, direction: Direction) -> (state: DirectionState)
        ensures
            state == self@.direction(direction),
    {
        match direction {
            Direction::Inbound => self.inbound,
            Direction::Outbound => self.outbound,
        }
    }
}

} // verus!
