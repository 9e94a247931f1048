use std::io::{self, Write};
use std::sync::{Arc, Mutex};

use climax::bang::error::ErrorKind as PromptErrorKind;
use climax::bang::interaction::{scripted_interaction, DriverKind};
use climax::bang::prompt::PromptOutcome;
use climax::bang_core::event::{Event, Key};
use climax::bang_core::review::ReviewState;
use climax::climax::app::{complete, interaction_for, run_with, CompletionStream, Context, ParseFailure};
use climax::climax::error::{Error, ErrorKind};
use climax::climax::output::{Format, Output, SharedWriter};
use climax::climax::terminal::{
    InteractionMode, StatusMode, TerminalCapabilities, TerminalPolicy,
};

#[derive(Clone, Default)]
struct Capture(Arc<Mutex<Vec<u8>>>);

impl Capture {
    fn text(&self) -> String {
        String::from_utf8(self.0.lock().unwrap().clone()).unwrap()
    }
}

impl Write for Capture {
    fn write(&mut self, buffer: &[u8]) -> io::Result<usize> {
        self.0.lock().unwrap().extend_from_slice(buffer);
        Ok(buffer.len())
    }

    fn flush(&mut self) -> io::Result<()> {
        Ok(())
    }
}

fn process_context() -> Context {
    Context::with_capabilities(TerminalCapabilities::new(false, false, false))
}

#[test]
fn context_carries_output_policy() {
    let context = process_context().with_output_format(Format::Json);
    assert_eq!(context.output_format(), Format::Json);
    assert_eq!(context.output().format(), Format::Json);
}

#[test]
fn run_with_supplies_the_command_and_context() {
    let result = run_with(process_context(), 42, |context, command| {
        assert_eq!(command, 42);
        assert_eq!(context.output_format(), Format::Text);
        Ok(())
    });
    assert!(result.is_ok());
}

#[test]
fn message_errors_have_no_dependency_source() {
    let error = Error::message("boom");
    assert_eq!(error.kind(), ErrorKind::Message);
    assert_eq!(error.to_string(), "boom");
    assert!(error.source_error().is_none());
}

#[test]
fn dependency_errors_are_opaque_sources() {
    let error = Error::from_io(io::Error::other("closed"));
    assert_eq!(error.kind(), ErrorKind::Io);
    assert_eq!(error.to_string(), "closed");
    assert!(error.source_error().is_some());
}

#[test]
fn application_context_preserves_its_source() {
    let error = Error::application_context("cannot query history", io::Error::other("closed"));
    assert_eq!(error.kind(), ErrorKind::Application);
    assert_eq!(error.to_string(), "cannot query history: closed");
    assert!(error.source_error().is_some());
}

#[test]
fn text_messages_end_in_a_newline() {
    assert_eq!(Output::new(Format::Text).format_message("hello"), "hello\n");
}

#[test]
fn json_messages_are_escaped_strings() {
    assert_eq!(
        Output::new(Format::Json).format_message("a\n\"b"),
        "\"a\\n\\\"b\"\n"
    );
}

#[test]
fn configured_writer_receives_durable_output() {
    let capture = Capture::default();
    Output::new(Format::Text)
        .with_writer(capture.clone())
        .print_message("hello")
        .unwrap();
    assert_eq!(capture.text(), "hello\n");
}

#[test]
fn notices_are_sideband_and_suppressed_for_json() {
    let text = Capture::default();
    Output::new(Format::Text)
        .with_notice_writer(SharedWriter::new(text.clone()))
        .notice("heads up")
        .unwrap();
    assert_eq!(text.text(), "heads up\n");

    let json = Capture::default();
    Output::new(Format::Json)
        .with_notice_writer(SharedWriter::new(json.clone()))
        .notice("heads up")
        .unwrap();
    assert_eq!(json.text(), "");
}

#[test]
fn auto_interaction_requires_input_transient_and_ansi_capabilities() {
    for capabilities in [
        TerminalCapabilities::new(false, true, true),
        TerminalCapabilities::new(true, false, true),
        TerminalCapabilities::new(true, true, false),
    ] {
        let mut policy = TerminalPolicy::new(TerminalCapabilities::new(true, true, true));
        policy.set_capabilities(capabilities);
        assert!(!policy.interaction_available());
    }
    let mut policy = TerminalPolicy::new(TerminalCapabilities::new(false, false, false));
    policy.set_capabilities(TerminalCapabilities::new(true, true, true));
    assert!(policy.interaction_available());
}

#[test]
fn explicit_modes_override_detection() {
    let mut policy = TerminalPolicy::new(TerminalCapabilities::new(true, true, true));
    policy.set_capabilities(TerminalCapabilities::new(false, false, false));
    policy.set_interaction_mode(InteractionMode::Force);
    policy.set_status_mode(StatusMode::Live);
    assert!(policy.interaction_available());
    assert_eq!(policy.effective_status_mode(), StatusMode::Live);

    policy.set_capabilities(TerminalCapabilities::new(true, true, true));
    policy.set_interaction_mode(InteractionMode::Disabled);
    policy.set_status_mode(StatusMode::Silent);
    assert!(!policy.interaction_available());
    assert_eq!(policy.effective_status_mode(), StatusMode::Silent);
}

#[test]
fn lifecycle_distinguishes_early_exit_parse_and_application_errors() {
    let help = complete::<(), _>(Err(ParseFailure::EarlyExit("help".to_owned())), process_context(), |_, ()| {
        unreachable!()
    });
    assert_eq!(help.code, 0);
    assert_eq!(help.stream, Some(CompletionStream::Stdout));
    assert_eq!(help.message.as_deref(), Some("help"));

    let parse = complete::<(), _>(
        Err(ParseFailure::Invalid("unrecognised argument '--wat'".to_owned())),
        process_context(),
        |_, ()| unreachable!(),
    );
    assert_eq!(parse.code, 2);
    assert_eq!(parse.stream, Some(CompletionStream::Stderr));
    assert_eq!(parse.message.as_deref(), Some("error: unrecognised argument '--wat'"));

    let application = complete(Ok(()), process_context(), |_, ()| Err(Error::message("boom")));
    assert_eq!(application.code, 1);
    assert_eq!(application.stream, Some(CompletionStream::Stderr));
    assert_eq!(application.message.as_deref(), Some("error: boom"));

    let cancelled = complete(Ok(()), process_context(), |_, ()| {
        Err(Error::with_source(ErrorKind::Cancelled, std::io::Error::new(std::io::ErrorKind::Interrupted, "cancelled")))
    });
    assert_eq!(cancelled.code, 130);
    assert_eq!(cancelled.stream, None);
}

#[test]
fn context_injects_scripted_interaction_into_typed_prompts() {
    let interaction = scripted_interaction(vec![vec![Event::key(Key::Down), Event::key(Key::Enter)]]);
    let context = process_context().with_interaction(interaction);
    assert!(context.interaction_available());
    assert_eq!(context.select("shell").choice("bash", 1).choice("zsh", 2).interact().unwrap(), PromptOutcome::Submit(2));
}

#[test]
fn auto_policy_rejects_interaction_when_capabilities_are_absent() {
    let context = Context::with_capabilities(TerminalCapabilities::new(true, true, true))
        .with_terminal_capabilities(TerminalCapabilities::new(false, false, false))
        .unwrap();
    let error = context.select("shell").choice("bash", 1).interact().unwrap_err();
    assert_eq!(error.kind(), PromptErrorKind::InteractionUnavailable);
}

#[test]
fn context_builds_typed_bang_prompts() {
    let context = process_context();
    let _select = context.select("shell").choice("bash", 1_u8);
    let _multi = context.multi_select("shells").choice("bash", 1_u8);
    let _search = context.search("shell").choice("bash", 1_u8);
    let _review = context.review("shells").item("bash", 1_u8, ReviewState::Unconfirmed).action('a', "accept", true);
    let _text = context.text("Name").placeholder("Ada");
}

#[test]
fn the_policy_picks_the_prompt_driver() {
    let usable = TerminalPolicy::new(TerminalCapabilities::new(true, true, true));
    let unusable = TerminalPolicy::new(TerminalCapabilities::new(false, true, true));
    assert_eq!(interaction_for(usable).driver_kind_of(), DriverKind::Live);
    assert_eq!(interaction_for(unusable).driver_kind_of(), DriverKind::Disabled);
    let mut forced = unusable;
    forced.set_interaction_mode(InteractionMode::Force);
    assert_eq!(interaction_for(forced).driver_kind_of(), DriverKind::Forced);
    let mut disabled = usable;
    disabled.set_interaction_mode(InteractionMode::Disabled);
    assert_eq!(interaction_for(disabled).driver_kind_of(), DriverKind::Disabled);
    let context = process_context().with_interaction_mode(InteractionMode::Force);
    assert!(context.interaction_available());
    let error = context.text("name").interact().unwrap_err();
    assert_eq!(error.kind(), PromptErrorKind::InteractionUnavailable);
}

#[test]
fn notice_bytes_are_the_text_and_a_newline_and_nothing_in_json() {
    let text = Output::new(Format::Text);
    assert_eq!(text.notice_bytes("heads up"), Some(b"heads up\n".to_vec()));
    let json = Output::new(Format::Json);
    assert_eq!(json.notice_bytes("heads up"), None);
}
