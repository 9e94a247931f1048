//! The decisions of a live session driver: what each handled event means
//! for the run, and how the run ends.

use std::io;

use vstd::prelude::*;
use vstd::view::View as _;

use crate::bang_core::event::Event;
use crate::bang_core::render::{Presentation, View};
use crate::bang_core::session::{Session, SessionStatus, StatusModel};
use crate::bang_core::widget::Widget;
use crate::terminal::events::TerminalPoll;
use crate::bang_core::value::{Value, ValueModel};
use crate::bang_core::widget::Reaction;
use crate::terminal::size::TerminalSize;

verus! {

/// How a live run ended.
#[derive(Debug)]
pub enum RunOutcome {
    Submitted(Value),
    Cancelled,
    InputEnded,
    Signalled(i32),
}

/// A run outcome with its value as a model.
pub enum OutcomeModel {
    Submitted(ValueModel),
    Cancelled,
    InputEnded,
    Signalled(i32),
}

impl vstd::view::View for RunOutcome {
    type V = OutcomeModel;

    open spec fn view(&self) -> OutcomeModel {
        match self {
            RunOutcome::Submitted(value) => OutcomeModel::Submitted(value@),
            RunOutcome::Cancelled => OutcomeModel::Cancelled,
            RunOutcome::InputEnded => OutcomeModel::InputEnded,
            RunOutcome::Signalled(signal) => OutcomeModel::Signalled(*signal),
        }
    }
}

/// What draws a session's view and is told the terminal's size.
pub trait SessionRenderer {
    fn render(&mut self, view: &View) -> Result<Presentation, io::Error>;

    fn resize(&mut self, size: TerminalSize) -> Result<(), io::Error>;
}

/// What a reserved key comes to when no widget claims it: Ctrl-C cancels,
/// Ctrl-D ends the input.
pub open spec fn unclaimed_outcome(event: Event) -> Option<OutcomeModel> {
    if event.is_control_char_spec('c') {
        Some(OutcomeModel::Cancelled)
    } else if event.is_control_char_spec('d') {
        Some(OutcomeModel::InputEnded)
    } else {
        None
    }
}

pub fn unhandled_outcome(event: &Event) -> (outcome: Option<RunOutcome>)
    ensures
        match unclaimed_outcome(*event) {
            Some(model) => outcome matches Some(o) && o@ == model,
            None => outcome is None,
        },
{
    if event.is_control_char('c') {
        return Some(RunOutcome::Cancelled);
    }
    if event.is_control_char('d') {
        return Some(RunOutcome::InputEnded);
    }
    None
}

/// How a run ends when the input does: with the session's value, its
/// cancellation, or the end of input.
pub open spec fn status_outcome(status: StatusModel) -> OutcomeModel {
    match status {
        StatusModel::Submitted(value) => OutcomeModel::Submitted(value),
        StatusModel::Cancelled => OutcomeModel::Cancelled,
        StatusModel::Running => OutcomeModel::InputEnded,
    }
}

pub fn outcome_from_status(status: &SessionStatus) -> (outcome: RunOutcome)
    ensures
        outcome@ == status_outcome(status@),
{
    match status {
        SessionStatus::Submitted(value) => RunOutcome::Submitted(value.clone()),
        SessionStatus::Cancelled => RunOutcome::Cancelled,
        SessionStatus::Running => RunOutcome::InputEnded,
    }
}

/// What one handled event means for the run: a submit or cancel ends it; a
/// session that ended otherwise ends it the same way; an ignored event
/// falls back to what it means unclaimed; anything else continues.
pub open spec fn event_outcome(
    reaction: Reaction,
    status: StatusModel,
    unclaimed: Option<OutcomeModel>,
) -> Option<OutcomeModel> {
    match reaction {
        Reaction::Submit(value) => Some(OutcomeModel::Submitted(value@)),
        Reaction::Cancel => Some(OutcomeModel::Cancelled),
        _ => match status {
            StatusModel::Submitted(value) => Some(OutcomeModel::Submitted(value)),
            StatusModel::Cancelled => Some(OutcomeModel::Cancelled),
            StatusModel::Running => if reaction is Ignored {
                unclaimed
            } else {
                None
            },
        },
    }
}

/// Decide what a handled event means for the run.
pub fn settle_event(reaction: Reaction, status: &SessionStatus, unclaimed: Option<RunOutcome>) -> (outcome: Option<
    RunOutcome,
>)
    ensures
        match event_outcome(
            reaction,
            status@,
            match unclaimed {
                Some(o) => Some(o@),
                None => None,
            },
        ) {
            Some(model) => outcome matches Some(o) && o@ == model,
            None => outcome is None,
        },
{
    let ignored = match reaction {
        Reaction::Ignored => true,
        _ => false,
    };
    match reaction {
        Reaction::Submit(value) => Some(RunOutcome::Submitted(value)),
        Reaction::Cancel => Some(RunOutcome::Cancelled),
        _ => match status {
            SessionStatus::Submitted(value) => Some(RunOutcome::Submitted(value.clone())),
            SessionStatus::Cancelled => Some(RunOutcome::Cancelled),
            SessionStatus::Running => if ignored {
                unclaimed
            } else {
                None
            },
        },
    }
}

/// Render the session's view when it asks for a render: the root widget's
/// view in the session's context is built, noted among the frames drawn and
/// handed to the renderer. What the renderer reports of the layout is kept
/// for the next event.
pub fn render_if_dirty<R: SessionRenderer>(session: &mut Session, renderer: &mut R) -> (result: Result<(), io::Error>)
    ensures
        final(session).current_status() == old(session).current_status(),
        final(session).focused() == old(session).focused(),
        final(session).terminal_size() == old(session).terminal_size(),
        result is Ok ==> !final(session).needs_render(),
        !old(session).needs_render() ==> result is Ok && final(session).layout() == old(session).layout()
            && final(session).frames_drawn() == old(session).frames_drawn(),
        old(session).needs_render() ==> final(session).frames_drawn().len() == old(session).frames_drawn().len() + 1
            && final(session).frames_drawn().drop_last() == old(session).frames_drawn() && old(session).root_shows(
            old(session).context(),
            final(session).frames_drawn().last(),
        ),
{
    if session.is_dirty() {
        let view = session.frame();
        let presentation = match renderer.render(&view) {
            Ok(presentation) => presentation,
            Err(error) => return Err(error),
        };
        session.set_presentation(presentation);
        session.clear_dirty();
    }
    Ok(())
}

/// Hand one input event to a running session: a resize reaches the
/// renderer first, the session reacts, its view is rendered if it changed,
/// and the reaction settles what the event means for the run.
pub fn handle_event<R: SessionRenderer>(session: &mut Session, event: Event, renderer: &mut R) -> (result: Result<
    Option<RunOutcome>,
    io::Error,
>)
    ensures
        result matches Ok(Some(o)) ==> !(o is Signalled),
        result matches Ok(None) ==> final(session).current_status() is Running,
        result matches Ok(Some(RunOutcome::Submitted(v))) ==> final(session).current_status()
            == StatusModel::Submitted(v@),
        result matches Ok(Some(RunOutcome::Cancelled)) ==> final(session).current_status() is Cancelled || (
        final(session).current_status() is Running && unclaimed_outcome(event) == Some(OutcomeModel::Cancelled)),
        result matches Ok(Some(RunOutcome::InputEnded)) ==> final(session).current_status() is Running
            && unclaimed_outcome(event) == Some(OutcomeModel::InputEnded),
        !(old(session).current_status() is Running) ==> final(session).current_status() == old(
            session,
        ).current_status() && (result is Err || (result matches Ok(Some(o)) && o@ == status_outcome(
            old(session).current_status(),
        ))),
{
    let unclaimed = unhandled_outcome(&event);
    if let Event::Resize { cols, rows } = &event {
        if let Err(error) = renderer.resize(TerminalSize { cols: *cols, rows: *rows }) {
            return Err(error);
        }
    }
    let reaction = session.handle(event);
    if let Err(error) = render_if_dirty(session, renderer) {
        return Err(error);
    }
    Ok(settle_event(reaction, session.status(), unclaimed))
}

/// Run a session over `widget` on polls that were already read: an initial
/// terminal size is a first resize, each event is handled in turn, a signal
/// ends the run, and the end of the polls ends the input. A renderer
/// failure ends the run before any further poll is taken.
pub fn drive_polls<W: Widget + 'static, R: SessionRenderer>(
    widget: W,
    initial: Option<TerminalSize>,
    polls: Vec<TerminalPoll>,
    renderer: &mut R,
) -> (result: Result<RunOutcome, io::Error>)
    ensures
        result matches Ok(RunOutcome::Signalled(signal)) ==> exists|i: int|
            0 <= i < polls@.len() && #[trigger] polls@[i] == TerminalPoll::Signal(signal) && forall|j: int|
                0 <= j < i ==> #[trigger] polls@[j] is Event,
        polls@.len() == 0 && initial is None ==> result matches Err(_) || result matches Ok(RunOutcome::InputEnded),
        polls@.len() > 0 && initial is None && polls@[0] is End ==> result matches Err(_) || result matches Ok(
            RunOutcome::InputEnded,
        ),
        polls@.len() > 0 && initial is None && polls@[0] is Signal ==> result is Err || (result matches Ok(
            RunOutcome::Signalled(s),
        ) && polls@[0] == TerminalPoll::Signal(s)),
{
    let mut session = Session::new(widget);
    if let Some(size) = initial {
        if let Err(error) = renderer.resize(size) {
            return Err(error);
        }
        let _reaction = session.handle(Event::Resize { cols: size.cols, rows: size.rows });
    }
    if let Err(error) = render_if_dirty(&mut session, renderer) {
        return Err(error);
    }
    let mut i: usize = 0;
    while i < polls.len()
        invariant
            i <= polls@.len(),
            initial is None ==> session.current_status() is Running,
            forall|j: int| 0 <= j < i ==> #[trigger] polls@[j] is Event,
        decreases polls@.len() - i,
    {
        match &polls[i] {
            TerminalPoll::Event(event) => {
                match handle_event(&mut session, event.clone(), renderer) {
                    Err(error) => return Err(error),
                    Ok(Some(outcome)) => return Ok(outcome),
                    Ok(None) => {},
                }
            },
            TerminalPoll::Signal(signal) => {
                assert(polls@[i as int] == TerminalPoll::Signal(*signal));
                return Ok(RunOutcome::Signalled(*signal));
            },
            TerminalPoll::End => return Ok(outcome_from_status(session.status())),
        }
        i += 1;
    }
    Ok(outcome_from_status(session.status()))
}

} // verus!
