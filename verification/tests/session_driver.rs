use std::io;

use climax::bang_core::action::{ActionBinding, ActionLayer};
use climax::bang_core::event::Event;
use climax::bang_core::render::{plain_snapshot, Presentation, View};
use climax::bang_core::text_input::TextInput;
use climax::bang_core::value::Value;
use climax::terminal::decoder::Decoder;
use climax::terminal::events::TerminalPoll;
use climax::terminal::runner::{drive_polls, RunOutcome, SessionRenderer};
use climax::terminal::size::TerminalSize;

#[derive(Default)]
struct FakeRenderer {
    views: Vec<String>,
    resizes: Vec<TerminalSize>,
    viewport: Option<TerminalSize>,
    viewports_at_render: Vec<Option<TerminalSize>>,
    presentation: Option<Presentation>,
    fail_render_at: Option<usize>,
}

impl SessionRenderer for FakeRenderer {
    fn render(&mut self, view: &View) -> io::Result<Presentation> {
        if self.fail_render_at == Some(self.views.len()) {
            return Err(io::Error::other("scripted renderer failure"));
        }
        self.views.push(plain_snapshot(view));
        self.viewports_at_render.push(self.viewport);
        Ok(self.presentation.clone().unwrap_or(Presentation { lists: Vec::new() }))
    }

    fn resize(&mut self, size: TerminalSize) -> io::Result<()> {
        self.resizes.push(size);
        self.viewport = Some(size);
        Ok(())
    }
}

/// What a blocking reader over `bytes` yields: the decoded events, then the
/// end of input.
fn polls_of(bytes: &[u8]) -> Vec<TerminalPoll> {
    let mut decoder = Decoder::new();
    let mut events = decoder.feed(bytes);
    events.append(&mut decoder.flush());
    let mut polls: Vec<TerminalPoll> = events.into_iter().map(TerminalPoll::Event).collect();
    polls.push(TerminalPoll::End);
    polls
}

#[test]
fn scripted_input_resize_and_submission_share_one_driver() {
    let size = TerminalSize { cols: 80, rows: 24 };
    let mut renderer = FakeRenderer::default();

    let outcome =
        drive_polls(TextInput::new("name").with_prompt("name: "), Some(size), polls_of(b"ab\r"), &mut renderer).unwrap();

    assert!(matches!(outcome, RunOutcome::Submitted(Value::String(ref text)) if text == "ab"));
    assert_eq!(renderer.resizes, [size]);
    assert!(renderer.viewports_at_render.iter().all(|viewport| *viewport == Some(size)));
    assert_eq!(renderer.views, ["name: ", "name: a", "name: ab", "name: ab"]);
}

#[test]
fn eof_control_c_and_signals_remain_distinct_outcomes() {
    let eof = drive_polls(TextInput::new("value"), None, polls_of(b"x"), &mut FakeRenderer::default()).unwrap();
    assert!(matches!(eof, RunOutcome::InputEnded));

    let cancel = drive_polls(TextInput::new("value"), None, polls_of(&[3_u8]), &mut FakeRenderer::default()).unwrap();
    assert!(matches!(cancel, RunOutcome::Cancelled));

    let mut signalled = vec![TerminalPoll::Signal(15)];
    signalled.append(&mut polls_of(b"ignored"));
    let signal = drive_polls(TextInput::new("value"), None, signalled, &mut FakeRenderer::default()).unwrap();
    assert!(matches!(signal, RunOutcome::Signalled(15)));
}

#[test]
fn an_action_can_claim_control_c_before_the_driver_cancels() {
    let widget = ActionLayer::new(TextInput::new("value")).with_actions(vec![ActionBinding::control_char('c', "copy")]);

    let outcome = drive_polls(widget, None, polls_of(&[3_u8]), &mut FakeRenderer::default()).unwrap();

    let RunOutcome::Submitted(value) = outcome else {
        panic!("a bound control key submits its action");
    };
    let action = value.as_object().and_then(|fields| fields.iter().find(|(name, _)| name == "action"));
    assert_eq!(action.map(|(_, value)| value.clone()), Some(Value::String("copy".to_owned())));
}

#[test]
fn control_d_ends_input_and_a_resize_reaches_the_renderer() {
    let ended = drive_polls(TextInput::new("value"), None, polls_of(&[4_u8]), &mut FakeRenderer::default()).unwrap();
    assert!(matches!(ended, RunOutcome::InputEnded));

    let size = TerminalSize { cols: 40, rows: 10 };
    let mut renderer = FakeRenderer::default();
    let polls = vec![TerminalPoll::Event(Event::Resize { cols: 40, rows: 10 }), TerminalPoll::End];
    let outcome = drive_polls(TextInput::new("value"), None, polls, &mut renderer).unwrap();
    assert!(matches!(outcome, RunOutcome::InputEnded));
    assert_eq!(renderer.resizes, [size]);
    assert_eq!(renderer.viewports_at_render, [None, Some(size)]);
}

#[test]
fn running_out_of_polls_ends_the_input() {
    let outcome = drive_polls(TextInput::new("value"), None, Vec::new(), &mut FakeRenderer::default()).unwrap();
    assert!(matches!(outcome, RunOutcome::InputEnded));
}

#[test]
fn renderer_failures_abort_before_more_input_is_consumed() {
    let mut renderer = FakeRenderer { fail_render_at: Some(1), ..FakeRenderer::default() };

    let error = drive_polls(TextInput::new("value"), None, polls_of(b"ab\r"), &mut renderer).unwrap_err();

    assert_eq!(error.kind(), io::ErrorKind::Other);
    assert_eq!(renderer.views, [""]);
}
