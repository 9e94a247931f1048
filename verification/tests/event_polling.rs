use climax::bang_core::event::{Event, Key};
use climax::terminal::events::TerminalPoll;
use climax::terminal::polling::{next_step, EventState, PollAction, PollEvent};

fn is_key(action: &PollAction, expected: Key) -> bool {
    matches!(action, PollAction::Deliver(TerminalPoll::Event(Event::Key(k))) if k.key == expected)
}

#[test]
fn a_request_asks_the_sources_then_waits() {
    let state = EventState::new();
    let (state, action) = next_step(state, PollEvent::Asked);
    assert!(matches!(action, PollAction::PollSideband));
    let (state, action) = next_step(state, PollEvent::Sideband(None));
    assert!(matches!(action, PollAction::WaitForInput));
    let (_state, action) = next_step(state, PollEvent::Sideband(Some(TerminalPoll::Signal(28))));
    assert!(matches!(action, PollAction::Deliver(TerminalPoll::Signal(28))));
}

#[test]
fn bytes_are_decoded_and_queued_in_order() {
    let state = EventState::new();
    let (state, action) = next_step(state, PollEvent::Bytes(b"ab".to_vec()));
    assert!(is_key(&action, Key::Char('a')));
    assert_eq!(state.pending.len(), 1);
    let (state, action) = next_step(state, PollEvent::Asked);
    assert!(is_key(&action, Key::Char('b')));
    let (_state, action) = next_step(state, PollEvent::Asked);
    assert!(matches!(action, PollAction::PollSideband));
}

#[test]
fn a_lone_escape_waits_for_its_timeout() {
    let state = EventState::new();
    let (state, action) = next_step(state, PollEvent::Bytes(vec![0x1b]));
    assert!(matches!(action, PollAction::PollSideband));
    assert!(state.escape_waiting);
    let (state, action) = next_step(state, PollEvent::TimedOut { escape_due: false });
    assert!(matches!(action, PollAction::PollSideband));
    assert!(state.escape_waiting);
    let (state, action) = next_step(state, PollEvent::TimedOut { escape_due: true });
    assert!(is_key(&action, Key::Esc));
    assert!(!state.escape_waiting);
    let (_state, action) = next_step(state, PollEvent::Interrupted);
    assert!(matches!(action, PollAction::PollSideband));
}

#[test]
fn the_end_flushes_and_repeats() {
    let state = EventState::new();
    let (state, action) = next_step(state, PollEvent::Bytes(vec![0x1b]));
    assert!(matches!(action, PollAction::PollSideband));
    let (state, action) = next_step(state, PollEvent::Ended);
    assert!(is_key(&action, Key::Esc));
    assert!(state.ended);
    let (state, action) = next_step(state, PollEvent::Asked);
    assert!(matches!(action, PollAction::Deliver(TerminalPoll::End)));
    let (_state, action) = next_step(state, PollEvent::Asked);
    assert!(matches!(action, PollAction::Deliver(TerminalPoll::End)));
}
