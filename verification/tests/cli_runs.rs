use climax::bang_core::event::{Key, KeyEvent, Modifiers};
use climax::bang_core::review::ReviewState;
use climax::bang_core::value::{Date, Value};
use climax::cli::command::{
    action_bindings, choice_items, decode_escaped, hex_byte, review_action_bindings, run, run_command,
    run_loaded_config, Cli, Command, OutputFormat, Outcome, Step,
};
use climax::cli::config::{
    format_action_key_event, is_reserved_action_key, parse_action_binding, parse_action_key_event,
    parse_review_action_binding, text_from_config, DetailedOption, OptionEntry, RawAction, RawConfig,
    RawFieldConfig, RawWidgetKind, WidgetKind,
};

fn raw(kind: RawWidgetKind) -> RawConfig {
    RawConfig {
        kind,
        input_bytes: None,
        page_size: None,
        prompt: None,
        placeholder: None,
        value: None,
        selected_date: None,
        today: None,
        wrap: None,
        show_removed: None,
        action_output: None,
        actions: Vec::new(),
        options: Vec::new(),
        fields: Vec::new(),
    }
}

fn raw_field(name: &str, kind: RawWidgetKind) -> RawFieldConfig {
    RawFieldConfig {
        name: name.to_owned(),
        kind,
        page_size: None,
        prompt: None,
        placeholder: None,
        value: None,
        selected_date: None,
        today: None,
        wrap: None,
        show_removed: None,
        action_output: None,
        actions: Vec::new(),
        options: Vec::new(),
    }
}

fn label(text: &str) -> OptionEntry {
    OptionEntry::Label(text.to_owned())
}

fn action(key: &str, name: &str) -> RawAction {
    RawAction { key: key.to_owned(), name: name.to_owned(), help: None }
}

fn strings(values: &[&str]) -> Vec<String> {
    values.iter().map(|value| (*value).to_owned()).collect()
}

fn select_command(options: &[&str], input: Option<&str>, actions: &[&str]) -> Command {
    Command::Select {
        option: strings(options),
        input_bytes: input.map(str::to_owned),
        page_size: 9,
        action: strings(actions),
    }
}

fn replayed(outcome: Result<Outcome, String>) -> Value {
    match outcome {
        Ok(Outcome::Value(value)) => value,
        Ok(Outcome::Live(_)) => panic!("scripted input should not run live"),
        Err(error) => panic!("unexpected error: {error}"),
    }
}

fn error_of<T>(result: Result<T, String>) -> String {
    match result {
        Ok(_) => panic!("an error was expected"),
        Err(error) => error,
    }
}

#[test]
fn action_keys_parse_names_control_letters_and_characters() {
    let control = parse_action_binding("Ctrl-S:save").unwrap();
    assert_eq!(*control.key_event(), KeyEvent::with_modifiers(Key::Char('s'), Modifiers::CONTROL()));
    assert_eq!(control.name(), "save");
    assert_eq!(control.help(), "save");
    assert_eq!(parse_action_key_event("control-q").unwrap(), KeyEvent::with_modifiers(Key::Char('q'), Modifiers::CONTROL()));
    assert_eq!(parse_action_key_event("Page-Down").unwrap(), KeyEvent::new(Key::PageDown));
    assert_eq!(parse_action_key_event("esc").unwrap(), KeyEvent::new(Key::Esc));
    assert_eq!(parse_action_key_event("X").unwrap(), KeyEvent::new(Key::Char('X')));
}

#[test]
fn malformed_action_arguments_name_their_problem() {
    assert_eq!(error_of(parse_action_binding("save")), "action must use key:name syntax");
    assert_eq!(error_of(parse_action_binding("x:")), "action name cannot be empty");
    assert_eq!(error_of(parse_action_binding(":save")), "review action key cannot be empty");
    assert_eq!(error_of(parse_action_binding("ab:save")), "review action key 'ab' must be one printable character");
    assert_eq!(error_of(parse_action_binding("ctrl-1:save")), "control action key 'ctrl-1' must use ctrl- plus one letter");
    assert_eq!(error_of(parse_action_binding("ctrl-:save")), "control action key cannot be empty");
    assert_eq!(
        error_of(parse_review_action_binding("j:jump")),
        "review action key 'j' is reserved by built-in review controls"
    );
    assert_eq!(error_of(parse_review_action_binding("q")), "review action must use key:name syntax");
    assert_eq!(error_of(parse_review_action_binding("q:")), "review action name cannot be empty");
    let review = parse_review_action_binding("q:quit").unwrap();
    assert_eq!(review.key(), 'q');
    assert_eq!(review.name(), "quit");
}

#[test]
fn reserved_review_keys_are_the_built_in_controls() {
    for key in [' ', '\t', 'a', 'A', 'c', 'g', 'j', 'K', 'n', 'r', 's', 'u', 'x', 'Y'] {
        assert!(is_reserved_action_key(key), "{key:?}");
    }
    for key in ['b', 'q', 'Z', '1'] {
        assert!(!is_reserved_action_key(key), "{key:?}");
    }
}

#[test]
fn action_keys_are_named_for_messages() {
    assert_eq!(format_action_key_event(&KeyEvent::with_modifiers(Key::Char('s'), Modifiers::CONTROL())), "ctrl-s");
    assert_eq!(format_action_key_event(&KeyEvent::new(Key::Char('x'))), "x");
    assert_eq!(format_action_key_event(&KeyEvent::new(Key::Enter)), "enter");
    assert_eq!(format_action_key_event(&KeyEvent::with_modifiers(Key::PageUp, Modifiers::SHIFT())), "pageup+1");
    assert_eq!(format_action_key_event(&KeyEvent::with_modifiers(Key::Char('A'), Modifiers::ALT())), "char('a')+2");
}

#[test]
fn duplicate_action_arguments_are_refused() {
    assert_eq!(error_of(action_bindings(strings(&["ctrl-s:save", "CTRL-S:store"]))), "duplicate action key 'ctrl-s'");
    assert_eq!(error_of(review_action_bindings(strings(&["q:quit", "q:quiet"]))), "duplicate review action key 'q'");
    assert_eq!(action_bindings(strings(&["ctrl-s:save", "enter:go"])).unwrap().len(), 2);
}

#[test]
fn choices_need_an_option_and_submit_their_label() {
    assert_eq!(error_of(choice_items(Vec::new())), "at least one --option is required");
    let items = choice_items(strings(&["alpha"])).unwrap();
    assert_eq!(items[0].label, "alpha");
    assert_eq!(items[0].value, Value::String("alpha".to_owned()));
}

#[test]
fn escaped_input_bytes_decode_and_report_bad_escapes() {
    assert_eq!(decode_escaped("a\\n\\r\\t\\e\\\\\\x41é").unwrap(), vec![b'a', b'\n', b'\r', b'\t', 0x1b, b'\\', 0x41, 0xc3, 0xa9]);
    assert_eq!(error_of(decode_escaped("abc\\")), "trailing backslash in --input-bytes");
    assert_eq!(error_of(decode_escaped("\\x4")), "incomplete \\x escape in --input-bytes");
    assert_eq!(error_of(decode_escaped("\\xg1")), "invalid hex digit 'g' in --input-bytes");
    assert_eq!(error_of(decode_escaped("\\x1z")), "invalid hex digit 'z' in --input-bytes");
    assert_eq!(error_of(decode_escaped("\\q")), "unsupported escape \\q in --input-bytes");
    assert_eq!(hex_byte('f', 'F').unwrap(), 255);
    assert_eq!(hex_byte('0', '9').unwrap(), 9);
}

#[test]
fn replayed_select_submits_the_chosen_option() {
    let value = replayed(run_command(select_command(&["alpha", "bravo"], Some("\\e[B\\r"), &[])));
    assert_eq!(value, Value::String("bravo".to_owned()));
}

#[test]
fn replayed_sessions_report_cancel_and_early_end() {
    assert_eq!(error_of(run_command(select_command(&["alpha"], Some("\\e"), &[]))), "cancelled");
    assert_eq!(error_of(run_command(select_command(&["alpha"], Some("\\e[B"), &[]))), "input ended before submit");
}

#[test]
fn subcommand_without_input_bytes_runs_live() {
    assert!(matches!(run_command(select_command(&["alpha"], None, &[])), Ok(Outcome::Live(_))));
}

#[test]
fn replayed_text_and_action_binding_submit_an_action_object() {
    let command = Command::Text {
        input_bytes: Some("!\\x13".to_owned()),
        value: "Ada".to_owned(),
        prompt: "name: ".to_owned(),
        action: strings(&["ctrl-s:save"]),
    };
    let value = replayed(run_command(command));
    assert_eq!(value.get("action"), Some(&Value::String("save".to_owned())));
    assert_eq!(value.get("value"), Some(&Value::String("Ada!".to_owned())));
}

#[test]
fn the_command_line_takes_a_configuration_or_a_subcommand() {
    let both = Cli { config: Some("c.toml".to_owned()), output: OutputFormat::Text, command: Some(select_command(&["a"], None, &[])) };
    assert_eq!(error_of(run(both)), "use either --config or a widget subcommand, not both");
    let none = Cli { config: None, output: OutputFormat::Text, command: None };
    assert_eq!(error_of(run(none)), "expected --config or a widget subcommand");
    let config = Cli { config: Some("c.toml".to_owned()), output: OutputFormat::Json, command: None };
    match run(config) {
        Ok(Step::LoadConfig { path, output }) => {
            assert_eq!(path, "c.toml");
            assert_eq!(output, OutputFormat::Json);
        },
        _ => panic!("a configuration is loaded first"),
    }
    let json = Cli { config: None, output: OutputFormat::Json, command: Some(select_command(&["alpha", "bravo"], Some("\\e[B\\r"), &[])) };
    match run(json) {
        Ok(Step::Output(text)) => assert_eq!(text, "\"bravo\"\n"),
        _ => panic!("the chosen value is printed"),
    }
    let missing = Cli { config: None, output: OutputFormat::Text, command: Some(select_command(&[], Some("\\r"), &[])) };
    assert_eq!(error_of(run(missing)), "at least one --option is required");
}

#[test]
fn configurations_are_checked_in_order() {
    assert_eq!(error_of(raw(RawWidgetKind::MultiSelect).finish()), "config type 'multi-select' requires at least one option");
    assert_eq!(error_of(raw(RawWidgetKind::Form).finish()), "config type 'form' requires at least one field");
    assert_eq!(error_of(raw(RawWidgetKind::Date).finish()), "config type 'date' requires selected_date");
    let mut zero = raw(RawWidgetKind::Text);
    zero.page_size = Some(0);
    assert_eq!(error_of(zero.finish()), "config page_size must be at least 1");
    let mut bad_state = raw(RawWidgetKind::ReviewList);
    bad_state.options.push(OptionEntry::Detailed(DetailedOption {
        label: "one".to_owned(),
        value: None,
        selected: false,
        state: Some("maybe".to_owned()),
    }));
    assert_eq!(
        error_of(bad_state.finish()),
        "invalid review state 'maybe', expected unconfirmed, confirmed, or denied"
    );
    let mut bad_date = raw(RawWidgetKind::Date);
    bad_date.selected_date = Some("2026-02-30".to_owned());
    assert_eq!(error_of(bad_date.finish()), "invalid date '2026-02-30', expected YYYY-MM-DD");
    let mut duplicate = raw(RawWidgetKind::Text);
    duplicate.actions = vec![action("ctrl-s", "save"), action("ctrl-S", "again")];
    assert_eq!(error_of(duplicate.finish()), "duplicate action key 'ctrl-s'");
    let mut reserved = raw(RawWidgetKind::ReviewList);
    reserved.options.push(label("one"));
    reserved.actions = vec![action("x", "remove")];
    assert_eq!(error_of(reserved.finish()), "review action key 'x' is reserved by built-in review controls");
}

#[test]
fn form_fields_are_checked_with_their_names() {
    let mut nested = raw(RawWidgetKind::Form);
    nested.fields.push(raw_field("inner", RawWidgetKind::Form));
    assert_eq!(error_of(nested.finish()), "nested form fields are not supported yet");
    let mut empty = raw(RawWidgetKind::Form);
    empty.fields.push(raw_field("shell", RawWidgetKind::Search));
    assert_eq!(error_of(empty.finish()), "field 'shell' type 'search' requires at least one option");
    let mut zero = raw(RawWidgetKind::Form);
    let mut field = raw_field("name", RawWidgetKind::Text);
    field.page_size = Some(0);
    zero.fields.push(field);
    assert_eq!(error_of(zero.finish()), "field 'name' page_size must be at least 1");
    let mut dateless = raw(RawWidgetKind::Form);
    dateless.fields.push(raw_field("when", RawWidgetKind::Date));
    assert_eq!(error_of(dateless.finish()), "field 'when' type 'date' requires selected_date");
}

#[test]
fn finished_options_keep_labels_values_marks_and_states() {
    let mut config = raw(RawWidgetKind::ReviewList);
    config.options = vec![
        label("one"),
        OptionEntry::Detailed(DetailedOption {
            label: "two".to_owned(),
            value: Some(Value::Bool(true)),
            selected: true,
            state: Some("denied".to_owned()),
        }),
    ];
    config.actions = vec![RawAction { key: "q".to_owned(), name: "quit".to_owned(), help: Some("leave now".to_owned()) }];
    let finished = config.finish().unwrap();
    assert_eq!(finished.kind, WidgetKind::ReviewList);
    assert_eq!(finished.options[0].value, Value::String("one".to_owned()));
    assert_eq!(finished.options[1].value, Value::Bool(true));
    assert_eq!(finished.selected_indices, vec![1]);
    assert_eq!(finished.review_states, vec![ReviewState::Unconfirmed, ReviewState::Denied]);
    assert!(finished.actions.is_empty());
    assert_eq!(finished.review_actions.len(), 1);
    assert_eq!(finished.review_actions[0].key(), 'q');
}

#[test]
fn a_configured_form_submits_an_object_of_its_fields() {
    let mut config = raw(RawWidgetKind::Form);
    config.input_bytes = Some("Ada\\t\\e[B\\r".to_owned());
    config.fields.push(raw_field("name", RawWidgetKind::Text));
    let mut shell = raw_field("shell", RawWidgetKind::Select);
    shell.options = vec![label("bash"), label("zsh")];
    config.fields.push(shell);
    let finished = config.finish().unwrap();
    match run_loaded_config(finished, OutputFormat::Json) {
        Ok(Step::Output(text)) => assert_eq!(text, "{\"name\":\"Ada\",\"shell\":\"zsh\"}\n"),
        Ok(_) => panic!("scripted input should finish"),
        Err(error) => panic!("unexpected error: {error}"),
    }
}

#[test]
fn a_configured_date_widget_needs_its_date() {
    let mut config = raw(RawWidgetKind::Date);
    config.selected_date = Some("2026-07-01".to_owned());
    config.input_bytes = Some("\\e[C\\r".to_owned());
    let finished = config.finish().unwrap();
    assert_eq!(finished.selected_date, Date::new(2026, 7, 1));
    match run_loaded_config(finished, OutputFormat::Text) {
        Ok(Step::Output(text)) => assert_eq!(text, "2026-07-02\n"),
        _ => panic!("the moved date is printed"),
    }
}

#[test]
fn text_configuration_defaults_its_prompt() {
    let mut config = raw(RawWidgetKind::Text);
    config.value = Some("seed".to_owned());
    let finished = config.finish().unwrap();
    let input = text_from_config(&finished);
    assert_eq!(input.value(), "seed");
}
