use telnetls::relay::{
    CopyEvent, Direction, DirectionState, DuplexRelay, Outcome, RelayAction, SessionState,
};

fn started() -> DuplexRelay {
    let mut relay = DuplexRelay::new();
    assert_eq!(relay.on_event(Direction::Inbound, CopyEvent::Start), RelayAction::Read);
    assert_eq!(relay.on_event(Direction::Outbound, CopyEvent::Start), RelayAction::SendPreamble);
    assert_eq!(relay.on_event(Direction::Outbound, CopyEvent::Flushed), RelayAction::Read);
    relay
}

#[test]
fn new_relay_is_running_and_idle() {
    let relay = DuplexRelay::new();
    assert_eq!(relay.session(), SessionState::Running);
    assert_eq!(relay.outcome(), None);
    assert_eq!(relay.direction(Direction::Inbound), DirectionState::Idle);
    assert_eq!(relay.direction(Direction::Outbound), DirectionState::Idle);
}

#[test]
fn first_closer_wins() {
    // The inbound source ends after one byte; the outbound source never ends.
    let mut relay = started();
    assert_eq!(relay.on_event(Direction::Inbound, CopyEvent::of_read(Some(1))), RelayAction::WriteAndFlush);
    assert_eq!(relay.on_event(Direction::Inbound, CopyEvent::of_write(true)), RelayAction::Read);
    assert_eq!(relay.on_event(Direction::Outbound, CopyEvent::of_read(Some(4))), RelayAction::WriteAndFlush);
    assert_eq!(
        relay.on_event(Direction::Inbound, CopyEvent::of_read(Some(0))),
        RelayAction::Cancel(Direction::Outbound)
    );
    assert_eq!(relay.session(), SessionState::Draining);
    assert_eq!(relay.outcome(), Some(Outcome::InboundClosed));
    // Whatever the outbound direction still reports, it is told to stop.
    for _ in 0..1000 {
        assert_eq!(relay.on_event(Direction::Outbound, CopyEvent::Flushed), RelayAction::Stop);
        assert_eq!(relay.on_event(Direction::Outbound, CopyEvent::Chunk), RelayAction::Stop);
    }
    assert_eq!(relay.direction(Direction::Outbound), DirectionState::Copying);
    assert_eq!(relay.session(), SessionState::Draining);
    relay.acknowledge_cancellation();
    assert_eq!(relay.session(), SessionState::Terminated);
    assert_eq!(relay.outcome(), Some(Outcome::InboundClosed));
}

#[test]
fn outbound_end_cancels_inbound() {
    let mut relay = started();
    assert_eq!(
        relay.on_event(Direction::Outbound, CopyEvent::EndOfStream),
        RelayAction::Cancel(Direction::Inbound)
    );
    assert_eq!(relay.outcome(), Some(Outcome::OutboundClosed));
    assert_eq!(relay.direction(Direction::Outbound), DirectionState::Closed);
    assert_eq!(relay.direction(Direction::Inbound), DirectionState::Copying);
}

#[test]
fn failures_end_the_session_like_a_close() {
    let mut relay = started();
    assert_eq!(
        relay.on_event(Direction::Inbound, CopyEvent::of_read(None)),
        RelayAction::Cancel(Direction::Outbound)
    );
    assert_eq!(relay.outcome(), Some(Outcome::InboundError));
    assert_eq!(relay.direction(Direction::Inbound), DirectionState::Failed);

    let mut relay = started();
    assert_eq!(relay.on_event(Direction::Outbound, CopyEvent::Chunk), RelayAction::WriteAndFlush);
    assert_eq!(
        relay.on_event(Direction::Outbound, CopyEvent::of_write(false)),
        RelayAction::Cancel(Direction::Inbound)
    );
    assert_eq!(relay.outcome(), Some(Outcome::OutboundError));
    assert_eq!(relay.session(), SessionState::Draining);

    let mut relay = started();
    assert_eq!(
        relay.on_event(Direction::Inbound, CopyEvent::WriteFailed),
        RelayAction::Cancel(Direction::Outbound)
    );
    assert_eq!(relay.outcome(), Some(Outcome::InboundError));

    let mut relay = started();
    assert_eq!(
        relay.on_event(Direction::Outbound, CopyEvent::ReadFailed),
        RelayAction::Cancel(Direction::Inbound)
    );
    assert_eq!(relay.outcome(), Some(Outcome::OutboundError));
}

#[test]
fn later_end_does_not_change_the_outcome() {
    let mut relay = started();
    relay.on_event(Direction::Outbound, CopyEvent::ReadFailed);
    assert_eq!(relay.on_event(Direction::Inbound, CopyEvent::EndOfStream), RelayAction::Stop);
    assert_eq!(relay.outcome(), Some(Outcome::OutboundError));
    assert_eq!(relay.direction(Direction::Inbound), DirectionState::Copying);
    relay.acknowledge_cancellation();
    assert_eq!(relay.on_event(Direction::Inbound, CopyEvent::EndOfStream), RelayAction::Stop);
    assert_eq!(relay.on_event(Direction::Outbound, CopyEvent::Start), RelayAction::Stop);
    assert_eq!(relay.session(), SessionState::Terminated);
    assert_eq!(relay.outcome(), Some(Outcome::OutboundError));
}

#[test]
fn acknowledgement_means_nothing_while_running() {
    let mut relay = started();
    relay.acknowledge_cancellation();
    assert_eq!(relay.session(), SessionState::Running);
    assert_eq!(relay.on_event(Direction::Inbound, CopyEvent::Chunk), RelayAction::WriteAndFlush);
    assert_eq!(
        relay.on_event(Direction::Inbound, CopyEvent::EndOfStream),
        RelayAction::Cancel(Direction::Outbound)
    );
    assert_eq!(relay.session(), SessionState::Draining);
}

#[test]
fn events_that_do_not_fit_ask_for_nothing() {
    let mut relay = DuplexRelay::new();
    assert_eq!(relay.on_event(Direction::Inbound, CopyEvent::Chunk), RelayAction::Nothing);
    assert_eq!(relay.on_event(Direction::Inbound, CopyEvent::EndOfStream), RelayAction::Nothing);
    assert_eq!(relay.on_event(Direction::Outbound, CopyEvent::WriteFailed), RelayAction::Nothing);
    assert_eq!(relay.direction(Direction::Inbound), DirectionState::Idle);
    assert_eq!(relay.session(), SessionState::Running);
    assert_eq!(relay.on_event(Direction::Inbound, CopyEvent::Start), RelayAction::Read);
    assert_eq!(relay.on_event(Direction::Inbound, CopyEvent::Start), RelayAction::Nothing);
    assert_eq!(relay.direction(Direction::Inbound), DirectionState::Copying);
}

#[test]
fn preamble_is_sent_before_the_first_outbound_read() {
    let mut relay = DuplexRelay::new();
    assert_eq!(relay.on_event(Direction::Outbound, CopyEvent::Start), RelayAction::SendPreamble);
    assert_eq!(relay.on_event(Direction::Outbound, CopyEvent::Flushed), RelayAction::Read);
    let mut relay = DuplexRelay::new();
    assert_eq!(relay.on_event(Direction::Outbound, CopyEvent::Start), RelayAction::SendPreamble);
    assert_eq!(
        relay.on_event(Direction::Outbound, CopyEvent::WriteFailed),
        RelayAction::Cancel(Direction::Inbound)
    );
}

#[test]
fn reads_and_writes_become_events() {
    assert_eq!(CopyEvent::of_read(None), CopyEvent::ReadFailed);
    assert_eq!(CopyEvent::of_read(Some(0)), CopyEvent::EndOfStream);
    assert_eq!(CopyEvent::of_read(Some(1)), CopyEvent::Chunk);
    assert_eq!(CopyEvent::of_read(Some(usize::MAX)), CopyEvent::Chunk);
    assert_eq!(CopyEvent::of_write(true), CopyEvent::Flushed);
    assert_eq!(CopyEvent::of_write(false), CopyEvent::WriteFailed);
    assert!(CopyEvent::EndOfStream.is_final());
    assert!(CopyEvent::ReadFailed.is_final());
    assert!(CopyEvent::WriteFailed.is_final());
    assert!(!CopyEvent::Start.is_final());
    assert!(!CopyEvent::Chunk.is_final());
    assert!(!CopyEvent::Flushed.is_final());
}

#[test]
fn direction_states_move_one_way() {
    assert_eq!(DirectionState::Idle.after(CopyEvent::Start), DirectionState::Copying);
    assert_eq!(DirectionState::Idle.after(CopyEvent::EndOfStream), DirectionState::Idle);
    assert_eq!(DirectionState::Copying.after(CopyEvent::Chunk), DirectionState::Copying);
    assert_eq!(DirectionState::Copying.after(CopyEvent::Flushed), DirectionState::Copying);
    assert_eq!(DirectionState::Copying.after(CopyEvent::EndOfStream), DirectionState::Closed);
    assert_eq!(DirectionState::Copying.after(CopyEvent::ReadFailed), DirectionState::Failed);
    assert_eq!(DirectionState::Copying.after(CopyEvent::WriteFailed), DirectionState::Failed);
    assert_eq!(DirectionState::Closed.after(CopyEvent::Start), DirectionState::Closed);
    assert_eq!(DirectionState::Failed.after(CopyEvent::Chunk), DirectionState::Failed);
    assert!(DirectionState::Closed.is_terminal());
    assert!(DirectionState::Failed.is_terminal());
    assert!(!DirectionState::Idle.is_terminal());
    assert!(!DirectionState::Copying.is_terminal());
    assert_eq!(Direction::Inbound.other(), Direction::Outbound);
    assert_eq!(Direction::Outbound.other(), Direction::Inbound);
}
