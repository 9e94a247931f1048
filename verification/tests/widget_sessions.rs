use climax::bang_core::action::{ActionBinding, ActionLayer};
use climax::bang_core::event::{Event, Key, KeyEvent, Modifiers};
use climax::bang_core::output::{format_json, format_output, OutputFormat};
use climax::bang_core::review::{ReviewActionBinding, ReviewList};
use climax::bang_core::select::{Select, SelectItem};
use climax::bang_core::session::{Session, SessionStatus};
use climax::bang_core::text_input::TextInput;
use climax::bang_core::value::{Date, Number, Value};
use climax::bang_core::widget::{Reaction, Widget};

fn text(value: &str) -> Value {
    Value::String(value.to_owned())
}

#[test]
fn action_layer_submits_current_value_for_bound_control_key() {
    let mut session = Session::new(
        ActionLayer::new(TextInput::new("name").with_value("Ada"))
            .with_actions(vec![ActionBinding::control_char('s', "save")]),
    );

    assert_eq!(session.handle(Event::char('!')), Reaction::Changed);
    assert!(matches!(
        session.handle(Event::Key(KeyEvent::with_modifiers(Key::Char('s'), Modifiers::CONTROL()))),
        Reaction::Submit(_)
    ));

    let SessionStatus::Submitted(value @ Value::Object(_)) = session.status() else {
        panic!("action layer should submit an action object");
    };
    assert_eq!(value.get("action"), Some(&text("save")));
    assert_eq!(value.get("value"), Some(&text("Ada!")));
}

#[test]
fn action_layer_passes_unbound_events_to_inner_widget() {
    let mut session = Session::new(
        ActionLayer::new(Select::new(
            "choice",
            vec![SelectItem::labelled("alpha"), SelectItem::labelled("bravo")],
        ))
        .with_actions(vec![ActionBinding::control_char('s', "save")]),
    );

    assert_eq!(session.handle(Event::key(Key::Down)), Reaction::Changed);
    assert!(matches!(session.handle(Event::key(Key::Enter)), Reaction::Submit(_)));

    match session.status() {
        SessionStatus::Submitted(value) => assert_eq!(value, &text("bravo")),
        _ => panic!("the selection should be submitted"),
    }
}

#[test]
fn formats_text_and_json_outputs() {
    assert_eq!(format_output(&text("alpha"), OutputFormat::Text), "alpha\n");
    assert_eq!(
        format_output(
            &Value::List(vec![text("alpha"), Value::Number(Number::Integer(1))]),
            OutputFormat::Text
        ),
        "alpha\n1\n"
    );
    assert_eq!(
        format_output(&Value::Date(Date::new(2026, 6, 30).expect("valid date")), OutputFormat::Json),
        "\"2026-06-30\"\n"
    );
}

#[test]
fn formats_json_objects_with_escaping() {
    let value = Value::Object(vec![("quote".to_owned(), text("a \"quoted\" value"))]);

    assert_eq!(format_json(&value), "{\"quote\":\"a \\\"quoted\\\" value\"}");
}

fn assert_exit(review: ReviewList, event: Event, exit: &str, action: Option<&str>) {
    let mut session = Session::new(review);
    session.handle(event);
    let SessionStatus::Submitted(output @ Value::Object(_)) = session.status() else {
        panic!("structured review should submit an exit object");
    };
    assert_eq!(output.get("exit").and_then(Value::as_str), Some(exit));
    assert_eq!(output.get("action").and_then(Value::as_str), action);
    assert!(matches!(output.get("rows"), Some(Value::List(_))));
}

#[test]
fn structured_review_distinguishes_submit_leave_and_action() {
    let review = || {
        ReviewList::new("review", vec![SelectItem::labelled("alpha")])
            .with_exit_output(true)
            .with_custom_actions(vec![ReviewActionBinding::new('g', "regenerate")])
    };

    assert_exit(review(), Event::key(Key::Enter), "submit", None);
    assert_exit(review(), Event::key(Key::Esc), "leave", None);
    assert_exit(review(), Event::char('G'), "action", Some("regenerate"));
}

#[test]
fn calendar_names_the_weekdays_monday_first() {
    let picker = climax::bang_core::date_picker::DatePicker::new("d", Date::new(2026, 7, 1).expect("valid date"));
    let calendar = picker.calendar_view();
    assert_eq!(calendar.weekdays, vec!["Mo", "Tu", "We", "Th", "Fr", "Sa", "Su"]);
    assert_eq!(calendar.weeks.len(), 6);
    assert_eq!(calendar.month_label, "July 2026");
}

#[test]
fn form_object_lists_fields_in_increasing_order_of_names() {
    let form = climax::bang_core::form::Form::new("f")
        .with_field("zeta", TextInput::new("zeta").with_value("z"))
        .with_field("alpha", TextInput::new("alpha").with_value("a"));
    assert_eq!(
        form.current_value(),
        Some(Value::Object(vec![
            ("alpha".to_owned(), Value::String("a".to_owned())),
            ("zeta".to_owned(), Value::String("z".to_owned())),
        ]))
    );
}
