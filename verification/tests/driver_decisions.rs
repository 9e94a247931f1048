use std::io;

use climax::attr::{summary, Pound};
use climax::bang_core::event::{Event, Key, KeyEvent, Modifiers};
use climax::bang_core::render::{Role, View};
use climax::bang_core::search_select::{highlight_match, label_matches, SearchSelect};
use climax::bang_core::select::{MultiSelect, SelectItem};
use climax::bang_core::session::{resize_reaction, Session, SessionStatus};
use climax::bang_core::text_input::TextInput;
use climax::bang_core::value::{Date, Value};
use climax::bang::error::{Error as PromptError, ErrorKind as PromptErrorKind};
use climax::bang_core::widget::{Reaction, Widget};
use climax::bang_core::widget::Context;
use climax::cli::args::{parse_cli, run_from_args};
use climax::cli::command::{Command, OutputFormat, Step};
use climax::live_session::{cursor_placement, settle_live_session, view_is_flexible, with_cleanup, BangView, CleanupStage, LiveSessionError};
use climax::bang_core::ids::CursorAnchor;
use climax::bang_core::render::{CursorPlacement, ListView, Span};
use climax::overlay::ProcessSpec;
use climax::terminal::events::SizeWatch;
use climax::terminal::runner::{outcome_from_status, settle_event, unhandled_outcome, RunOutcome};
use climax::terminal::size::TerminalSize;

fn args(values: &[&str]) -> Vec<String> {
    values.iter().map(|value| (*value).to_owned()).collect()
}

fn items(labels: &[&str]) -> Vec<SelectItem> {
    labels.iter().map(|label| SelectItem::labelled(label)).collect()
}

fn text(value: &str) -> Value {
    Value::String(value.to_owned())
}

fn error_of<T>(result: Result<T, String>) -> String {
    match result {
        Ok(_) => panic!("an error was expected"),
        Err(error) => error,
    }
}

#[test]
fn arguments_read_a_subcommand_and_its_options() {
    let cli = parse_cli(&args(&[
        "bang", "--output=json", "select", "-o", "alpha", "--option", "bravo", "--page-size", "3", "--action=ctrl-s:save",
    ]))
    .unwrap();
    assert_eq!(cli.config, None);
    assert_eq!(cli.output, OutputFormat::Json);
    match cli.command {
        Some(Command::Select { option, input_bytes, page_size, action }) => {
            assert_eq!(option, args(&["alpha", "bravo"]));
            assert_eq!(input_bytes, None);
            assert_eq!(page_size, 3);
            assert_eq!(action, args(&["ctrl-s:save"]));
        },
        _ => panic!("a select subcommand"),
    }
    let text_cli = parse_cli(&args(&["bang", "text", "-o", "json", "--prompt", "name: "])).unwrap();
    assert_eq!(text_cli.output, OutputFormat::Json);
    match text_cli.command {
        Some(Command::Text { value, prompt, .. }) => {
            assert_eq!(value, "");
            assert_eq!(prompt, "name: ");
        },
        _ => panic!("a text subcommand"),
    }
    let config = parse_cli(&args(&["bang", "-c", "widget.toml"])).unwrap();
    assert_eq!(config.config.as_deref(), Some("widget.toml"));
    assert!(config.command.is_none());
}

#[test]
fn malformed_arguments_name_the_offending_token() {
    assert_eq!(error_of(parse_cli(&args(&["bang", "--wat"]))), "unrecognised argument '--wat'");
    assert_eq!(error_of(parse_cli(&args(&["bang", "select", "text"]))), "unrecognised argument 'text'");
    assert_eq!(error_of(parse_cli(&args(&["bang", "select", "--config", "x"]))), "unrecognised argument '--config'");
    assert_eq!(error_of(parse_cli(&args(&["bang", "--config"]))), "missing value for '--config'");
    assert_eq!(
        error_of(parse_cli(&args(&["bang", "--output", "yaml"]))),
        "invalid value 'yaml' for '--output': expected text or json"
    );
    assert_eq!(error_of(parse_cli(&args(&["bang", "search", "--page-size", "0"]))), "'--page-size' must be at least 1");
    assert_eq!(error_of(parse_cli(&args(&["bang", "search", "--page-size", "many"]))), "invalid value 'many' for '--page-size'");
    assert_eq!(error_of(parse_cli(&args(&["bang", "review-list", "--hide-removed=yes"]))), "unrecognised argument '--hide-removed=yes'");
}

#[test]
fn a_command_line_runs_its_widget() {
    let step = run_from_args(&args(&["bang", "select", "-o", "alpha", "-o", "bravo", "--input-bytes", "\\e[B\\r"])).unwrap();
    match step {
        Step::Output(text) => assert_eq!(text, "bravo\n"),
        _ => panic!("the chosen option is printed"),
    }
    let review = run_from_args(&args(&["bang", "review-list", "-o", "one", "--hide-removed", "--action-output", "--input-bytes", "\\r"]));
    match review {
        Ok(Step::Output(text)) => assert!(text.contains("submit"), "{text}"),
        _ => panic!("the review exit is printed"),
    }
}

#[test]
fn a_session_stops_after_submit_and_counts_resizes_as_changes() {
    let mut session = Session::new(TextInput::new("name").with_value("Ada"));
    assert!(session.is_dirty());
    session.clear_dirty();
    assert_eq!(session.handle(Event::Resize { cols: 80, rows: 24 }), Reaction::Changed);
    assert!(session.is_dirty());
    assert_eq!(session.handle(Event::Resize { cols: 80, rows: 24 }), Reaction::Ignored);
    assert!(matches!(session.handle(Event::key(Key::Enter)), Reaction::Submit(_)));
    assert_eq!(session.handle(Event::char('x')), Reaction::Ignored);
    match session.status() {
        SessionStatus::Submitted(value) => assert_eq!(value, &text("Ada")),
        _ => panic!("the text was submitted"),
    }
    assert_eq!(resize_reaction(Reaction::Ignored, true), Reaction::Changed);
    assert_eq!(resize_reaction(Reaction::Ignored, false), Reaction::Ignored);
    assert_eq!(resize_reaction(Reaction::Cancel, true), Reaction::Cancel);
}

#[test]
fn multi_select_checks_marks_and_submits_them_in_order() {
    let mut multi = MultiSelect::new("multi", items(&["a", "b", "c"])).with_checked_indices(vec![2, 7]);
    let mut cx = Context::new();
    assert_eq!(multi.handle(Event::char(' '), &mut cx), Reaction::Changed);
    assert_eq!(multi.checked_values(), vec![text("a"), text("c")]);
    assert_eq!(multi.handle(Event::char('a'), &mut cx), Reaction::Changed);
    assert_eq!(multi.handle(Event::char('A'), &mut cx), Reaction::Ignored);
    assert_eq!(multi.handle(Event::char('n'), &mut cx), Reaction::Changed);
    assert!(matches!(multi.handle(Event::key(Key::Enter), &mut cx), Reaction::Submit(Value::List(values)) if values.is_empty()));
}

#[test]
fn search_filters_ignoring_ascii_case_and_highlights_the_match() {
    assert!(label_matches("Alpha", ""));
    assert!(label_matches("Alpha", "LPH"));
    assert!(!label_matches("Alpha", "beta"));
    let spans = highlight_match("Alphabet", "pha", false);
    let parts: Vec<(String, Role)> = spans.into_iter().map(|span| (span.text, span.role)).collect();
    assert_eq!(
        parts,
        vec![("Al".to_owned(), Role::Normal), ("pha".to_owned(), Role::Match), ("bet".to_owned(), Role::Normal)]
    );
    let joined: String = highlight_match("Alphabet", "ALPHABET", true).into_iter().map(|span| span.text).collect();
    assert_eq!(joined, "Alphabet");

    let mut search = SearchSelect::new("search", items(&["alpha", "bravo", "charlie"]));
    let mut cx = Context::new();
    assert_eq!(search.matched_indices(), &[0, 1, 2]);
    assert_eq!(search.handle(Event::char('r'), &mut cx), Reaction::Changed);
    assert_eq!(search.query(), "r");
    assert_eq!(search.matched_indices(), &[1, 2]);
    assert_eq!(search.handle(Event::key(Key::Down), &mut cx), Reaction::Changed);
    assert!(matches!(search.handle(Event::key(Key::Enter), &mut cx), Reaction::Submit(value) if value == text("charlie")));
}

#[test]
fn reserved_keys_fall_back_when_no_widget_claims_them() {
    let ctrl_c = Event::Key(KeyEvent::with_modifiers(Key::Char('c'), Modifiers::CONTROL()));
    let ctrl_d = Event::Key(KeyEvent::with_modifiers(Key::Char('d'), Modifiers::CONTROL()));
    assert!(matches!(unhandled_outcome(&ctrl_c), Some(RunOutcome::Cancelled)));
    assert!(matches!(unhandled_outcome(&ctrl_d), Some(RunOutcome::InputEnded)));
    assert!(unhandled_outcome(&Event::char('c')).is_none());
    assert!(matches!(
        settle_event(Reaction::Ignored, &SessionStatus::Running, unhandled_outcome(&ctrl_c)),
        Some(RunOutcome::Cancelled)
    ));
    assert!(settle_event(Reaction::Changed, &SessionStatus::Running, unhandled_outcome(&ctrl_c)).is_none());
    assert!(matches!(
        settle_event(Reaction::Submit(text("v")), &SessionStatus::Running, None),
        Some(RunOutcome::Submitted(value)) if value == text("v")
    ));
    assert!(matches!(outcome_from_status(&SessionStatus::Running), RunOutcome::InputEnded));
    assert!(matches!(outcome_from_status(&SessionStatus::Cancelled), RunOutcome::Cancelled));
}

#[test]
fn live_session_errors_carry_every_cleanup_failure() {
    let (signal, result) = settle_live_session(Ok(RunOutcome::Signalled(15)), Ok(()), Ok(()), Ok(()), Ok(()));
    assert_eq!(signal, Some(15));
    assert!(matches!(result, Err(LiveSessionError::Signalled(15))));

    let (signal, result) = settle_live_session(
        Ok(RunOutcome::Submitted(text("done"))),
        Ok(()),
        Err(io::Error::other("screen")),
        Ok(()),
        Err(io::Error::other("raw")),
    );
    assert_eq!(signal, None);
    let error = result.unwrap_err();
    assert!(error.primary().is_none());
    let stages: Vec<CleanupStage> = error.cleanup_failures().iter().map(|failure| failure.stage()).collect();
    assert_eq!(stages, vec![CleanupStage::Screen, CleanupStage::RawMode]);
    assert_eq!(error.message(), "terminal cleanup failed: Screen: screen; RawMode: raw");

    let wrapped = with_cleanup(LiveSessionError::Cancelled, Vec::new());
    assert_eq!(wrapped.message(), "cancelled");
    assert_eq!(LiveSessionError::Signalled(-2).message(), "interrupted by signal -2");
    assert_eq!(LiveSessionError::TerminalIo(io::Error::other("gone")).message(), "terminal I/O failed: gone");
    assert_eq!(LiveSessionError::Unavailable.message(), "interactive terminal input is unavailable");

    let view = BangView::new(View::Stack(Vec::new()));
    assert!(view.presentation().lists.is_empty());
}

#[test]
fn a_size_watch_reports_the_first_size_and_each_change() {
    let mut watch = SizeWatch::default();
    let size = TerminalSize { cols: 80, rows: 24 };
    assert_eq!(watch.observe(Some(size)), Some(Event::Resize { cols: 80, rows: 24 }));
    assert_eq!(watch.observe(Some(size)), None);
    assert_eq!(watch.observe(None), None);
    assert_eq!(watch.observe(Some(size)), Some(Event::Resize { cols: 80, rows: 24 }));
}

#[test]
fn process_specs_and_attribute_options_hold_what_they_were_given() {
    let spec = ProcessSpec::new("ls").arg("-l").args(args(&["a", "b"]));
    assert_eq!(spec.program(), "ls");
    assert_eq!(spec.argv(), &args(&["-l", "a", "b"])[..]);
    let mut options = Pound::default();
    assert!(!options.is_named());
    options.long = Some(None);
    assert!(options.is_named());
    assert_eq!(summary("first line\n\nmore"), "first line");
    assert_eq!(summary("only"), "only");
}

#[test]
fn dates_read_back_as_they_are_written() {
    for (year, month, day, text) in [(2024, 2, 29, "2024-02-29"), (7, 1, 1, "0007-01-01"), (12345, 12, 31, "12345-12-31")] {
        let date = Date::new(year, month, day).unwrap();
        assert_eq!(date.to_text(), text);
        assert_eq!(Date::parse(text).unwrap(), date);
    }
    let before_the_era = Date::new(-1, 1, 1).unwrap();
    assert_eq!(before_the_era.to_text(), "-001-01-01");
    assert!(Date::parse(&before_the_era.to_text()).is_err());
}

#[test]
fn live_session_failures_become_prompt_errors_by_their_primary_error() {
    assert_eq!(PromptError::from_live(LiveSessionError::Unavailable).kind(), PromptErrorKind::InteractionUnavailable);
    assert_eq!(PromptError::from_live(LiveSessionError::Cancelled).kind(), PromptErrorKind::Cancelled);
    assert_eq!(PromptError::from_live(LiveSessionError::InputEnded).kind(), PromptErrorKind::InputEnded);
    assert_eq!(PromptError::from_live(LiveSessionError::Signalled(15)).kind(), PromptErrorKind::Terminal);
    let wrapped = LiveSessionError::Cleanup { primary: Some(Box::new(LiveSessionError::Cancelled)), failures: Vec::new() };
    let error = PromptError::from_live(wrapped);
    assert_eq!(error.kind(), PromptErrorKind::Cancelled);
}

#[test]
fn stacks_grow_with_a_list_and_take_the_last_cursor() {
    let cursor = |column: usize| View::Cursor(CursorPlacement { anchor: CursorAnchor::borrowed("input/cursor"), column });
    let text = View::Text(vec![Span::new("hello", Role::Normal)]);
    assert!(!view_is_flexible(&text));
    assert!(!view_is_flexible(&View::Stack(vec![View::Empty, cursor(1)])));
    let list = View::List(ListView {
        id: None,
        header: Vec::new(),
        rows: Vec::new(),
        selected: None,
        requested_start: 0,
        total: 0,
        max_visible: None,
        help: Vec::new(),
    });
    assert!(view_is_flexible(&View::Stack(vec![View::Empty, View::Stack(vec![list])])));
    let nested = View::Stack(vec![View::Stack(vec![cursor(2)]), View::Empty, cursor(5), View::Stack(vec![])]);
    assert_eq!(cursor_placement(&nested).map(|c| c.column), Some(5));
    assert_eq!(cursor_placement(&text), None);
    let inner_last = View::Stack(vec![cursor(1), View::Stack(vec![View::Empty, cursor(7)])]);
    assert_eq!(cursor_placement(&inner_last).map(|c| c.column), Some(7));
}
