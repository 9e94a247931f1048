//! Driving a custom widget with already-decoded events, by the same rules
//! as a live terminal session.

use vstd::prelude::*;
use vstd::view::View as _;

use crate::bang::error::{Error, ErrorKind};
use crate::bang_core::event::Event;
use crate::bang_core::session::{Session, SessionStatus, StatusModel};
use crate::bang_core::value::Value;
use crate::bang_core::widget::{Reaction, Widget};
use crate::terminal::runner::{event_outcome, status_outcome, unclaimed_outcome, OutcomeModel};

verus! {

/// The outcome a replay result stands for: a value is a submit, and the
/// cancellation and end-of-input errors are those outcomes.
pub open spec fn replay_outcome(result: Result<Value, Error>) -> Option<OutcomeModel> {
    match result {
        Ok(value) => Some(OutcomeModel::Submitted(value@)),
        Err(error) => if error.error_kind() == ErrorKind::Cancelled && error.text() == "prompt was cancelled"@
            && !error.has_source() {
            Some(OutcomeModel::Cancelled)
        } else if error.error_kind() == ErrorKind::InputEnded && error.text()
            == "input ended before the prompt was submitted"@ && !error.has_source() {
            Some(OutcomeModel::InputEnded)
        } else {
            None
        },
    }
}

/// What one replayed event settles: a submit or cancel ends the replay; an
/// ignored reserved key ends it as it does unclaimed; otherwise a session
/// that is no longer running ends it with its status.
pub open spec fn replay_step_outcome(
    reaction: Reaction,
    status: StatusModel,
    unclaimed: Option<OutcomeModel>,
) -> Option<OutcomeModel> {
    match reaction {
        Reaction::Submit(value) => Some(OutcomeModel::Submitted(value@)),
        Reaction::Cancel => Some(OutcomeModel::Cancelled),
        _ => if reaction is Ignored && unclaimed is Some {
            unclaimed
        } else if status is Running {
            None
        } else {
            Some(status_outcome(status))
        },
    }
}

/// Whether a session status is the one a running session takes after
/// reacting so.
pub open spec fn status_follows(reaction: Reaction, status: StatusModel) -> bool {
    match reaction {
        Reaction::Submit(value) => status == StatusModel::Submitted(value@),
        Reaction::Cancel => status is Cancelled,
        _ => status is Running,
    }
}

/// The error a reserved key falls back to when no widget claims it:
/// Ctrl-C cancels and Ctrl-D ends the input.
pub fn unhandled_error(event: &Event) -> (error: Option<Error>)
    ensures
        match unclaimed_outcome(*event) {
            Some(model) => error matches Some(e) && replay_outcome(Err(e)) == Some(model),
            None => error is None,
        },
{
    if event.is_control_char('c') {
        return Some(Error::cancelled());
    }
    if event.is_control_char('d') {
        return Some(Error::input_ended());
    }
    None
}

fn status_result(status: &SessionStatus) -> (result: Result<Value, Error>)
    ensures
        replay_outcome(result) == Some(status_outcome(status@)),
{
    match status {
        SessionStatus::Submitted(value) => Ok(value.clone()),
        SessionStatus::Cancelled => Err(Error::cancelled()),
        SessionStatus::Running => Err(Error::input_ended()),
    }
}

/// Settle one replayed event from the widget's reaction, the session's
/// status after it and the event's unclaimed error.
pub fn replay_step(reaction: Reaction, status: &SessionStatus, unclaimed: Option<Error>) -> (settled: Option<
    Result<Value, Error>,
>)
    requires
        match unclaimed {
            Some(e) => replay_outcome(Err(e)) is Some,
            None => true,
        },
    ensures
        match replay_step_outcome(
            reaction,
            status@,
            match unclaimed {
                Some(e) => replay_outcome(Err(e)),
                None => None,
            },
        ) {
            Some(model) => settled matches Some(r) && replay_outcome(r) == Some(model),
            None => settled is None,
        },
{
    match reaction {
        Reaction::Submit(value) => return Some(Ok(value)),
        Reaction::Cancel => return Some(Err(Error::cancelled())),
        Reaction::Ignored => {
            if let Some(error) = unclaimed {
                return Some(Err(error));
            }
        },
        Reaction::Changed | Reaction::Focus(_) => {},
    }
    match status {
        SessionStatus::Running => None,
        _ => Some(status_result(status)),
    }
}

/// Drive `widget` with already-decoded events.
///
/// Ctrl-C and Ctrl-D are offered to the widget first. A widget that returns
/// anything but an ignored reaction has claimed the key and replay
/// continues; an ignored Ctrl-C cancels and an ignored Ctrl-D ends input.
/// Events left when the session ends are not handed on, and input that
/// ends while the session runs is an error.
pub fn replay_events<W: Widget + 'static>(widget: W, events: Vec<Event>) -> (result: Result<Value, Error>)
    ensures
        replay_outcome(result) is Some,
        events@.len() == 0 ==> replay_outcome(result) == Some(OutcomeModel::InputEnded),
{
    let mut session = Session::new(widget);
    let mut i: usize = 0;
    while i < events.len()
        invariant
            i <= events.len(),
            session.current_status() is Running,
        decreases events@.len() - i,
    {
        let event = events[i].clone();
        let unclaimed = unhandled_error(&event);
        let reaction = session.handle(event);
        if let Some(settled) = replay_step(reaction, session.status(), unclaimed) {
            return settled;
        }
        i += 1;
    }
    status_result(session.status())
}

/// Replay and the live terminal driver settle every handled event alike:
/// for each reaction of a running session and the status it leaves, the
/// outcome of a replay step is the live driver's.
pub proof fn law_replay_agrees_with_live_dispatch(
    reaction: Reaction,
    status: StatusModel,
    unclaimed: Option<OutcomeModel>,
)
    requires
        status_follows(reaction, status),
    ensures
        replay_step_outcome(reaction, status, unclaimed) == event_outcome(reaction, status, unclaimed),
{
}

} // verus!
