use climax::bang::error::ErrorKind;
use climax::bang::prompt::{
    resolve_many, resolve_one, resolve_review, validate_review_actions, Choice, MultiSelectConfig, ReviewChoice,
    ReviewConfig, ReviewExit, ReviewPromptAction, SearchConfig, SelectConfig, TextConfig,
};
use climax::bang_core::review::ReviewState;
use climax::bang_core::value::Value;

fn text(value: &str) -> Value {
    Value::String(value.to_owned())
}

fn shells() -> Vec<Choice<i32>> {
    vec![
        Choice { label: "Bash".to_owned(), value: 10 },
        Choice { label: "Zsh".to_owned(), value: 20 },
    ]
}

#[test]
fn prompt_specific_configs_cover_normal_presentation_state() {
    let select = SelectConfig::default().header("choose").wrap(false).page_size(4).selected(2);
    assert_eq!(select.list.header.as_deref(), Some("choose"));
    assert!(!select.list.wrap);
    assert_eq!(select.list.page_size, 4);
    assert_eq!(select.selected, Some(2));

    let multi = MultiSelectConfig::default()
        .header("choose several")
        .wrap(false)
        .page_size(5)
        .selected(1)
        .checked_indices(vec![0, 2]);
    assert_eq!(multi.selected, Some(1));
    assert_eq!(multi.checked, [0, 2]);

    let search = SearchConfig::default()
        .header("find one")
        .wrap(false)
        .page_size(6)
        .prompt("query: ")
        .placeholder("type here")
        .selected(3);
    assert_eq!(search.list.header.as_deref(), Some("find one"));
    assert_eq!(search.prompt.as_deref(), Some("query: "));
    assert_eq!(search.placeholder.as_deref(), Some("type here"));
    assert_eq!(search.selected, Some(3));

    let text_config = TextConfig::default().id("value").value("initial").placeholder("required").validator(
        |value: &str| if value.is_empty() { Err("empty".to_owned()) } else { Ok(()) },
    );
    assert_eq!(text_config.id.as_deref(), Some("value"));
    assert_eq!(text_config.value.as_deref(), Some("initial"));
    assert!(text_config.validator.is_some());

    let review = ReviewConfig::default().header("review").wrap(false).page_size(7).selected(2).show_removed(false);
    assert_eq!(review.list.header.as_deref(), Some("review"));
    assert!(!review.list.wrap);
    assert_eq!(review.list.page_size, 7);
    assert_eq!(review.selected, Some(2));
    assert!(!review.show_removed);
}

#[test]
fn typed_choice_is_recovered() {
    assert_eq!(resolve_one(&text("1"), shells()).unwrap(), 20);
}

#[test]
fn typed_choices_are_recovered_in_selection_order() {
    assert_eq!(resolve_many(Value::List(vec![text("0"), text("1")]), shells()).unwrap(), vec![10, 20]);
}

#[test]
fn unknown_choice_is_an_owned_error() {
    let choices = vec![Choice { label: "Bash".to_owned(), value: 10 }];
    let error = resolve_one(&text("9"), choices).unwrap_err();
    assert_eq!(error.kind(), ErrorKind::UnexpectedValue);
}

#[test]
fn malformed_choice_is_an_owned_error() {
    let choices = vec![Choice { label: "Bash".to_owned(), value: 10 }];
    let error = resolve_one(&text("not-an-index"), choices).unwrap_err();
    assert_eq!(error.kind(), ErrorKind::UnexpectedValue);
}

#[test]
fn choice_from_an_empty_prompt_is_an_owned_error() {
    let error = resolve_one::<i32>(&text("0"), Vec::new()).unwrap_err();
    assert_eq!(error.kind(), ErrorKind::UnexpectedValue);
}

#[test]
fn review_leave_discards_provisional_items() {
    let value = Value::Object(vec![("exit".to_owned(), text("leave")), ("rows".to_owned(), Value::List(Vec::new()))]);
    let outcome = resolve_review::<i32, ()>(
        value,
        vec![ReviewChoice { label: "one".to_owned(), value: 1, state: ReviewState::Unconfirmed }],
        Vec::new(),
    )
    .unwrap();
    assert_eq!(outcome.exit(), &ReviewExit::Leave);
    assert!(outcome.accepted_items().is_none());
}

#[test]
fn review_action_recovers_typed_action_and_changed_items() {
    let row = Value::Object(vec![("state".to_owned(), text("confirmed")), ("value".to_owned(), text("0"))]);
    let value = Value::Object(vec![
        ("action".to_owned(), text("0")),
        ("exit".to_owned(), text("action")),
        ("rows".to_owned(), Value::List(vec![row])),
    ]);
    let outcome = resolve_review(
        value,
        vec![ReviewChoice { label: "one".to_owned(), value: 42, state: ReviewState::Unconfirmed }],
        vec![ReviewPromptAction { key: 'g', help: "regenerate".to_owned(), value: "regen" }],
    )
    .unwrap();
    assert_eq!(outcome.exit(), &ReviewExit::Action("regen"));
    let items = outcome.accepted_items().unwrap();
    assert_eq!(items[0].value(), &42);
    assert_eq!(items[0].state(), ReviewState::Confirmed);
    assert!(items[0].changed());
}

#[test]
fn review_rejects_reserved_and_duplicate_action_keys() {
    let reserved = vec![ReviewPromptAction { key: 'J', help: "jump".to_owned(), value: 1 }];
    assert_eq!(validate_review_actions(&reserved).unwrap_err().kind(), ErrorKind::InvalidConfiguration);

    let duplicate = vec![
        ReviewPromptAction { key: 'g', help: "generate".to_owned(), value: 1 },
        ReviewPromptAction { key: 'G', help: "go".to_owned(), value: 2 },
    ];
    assert_eq!(validate_review_actions(&duplicate).unwrap_err().kind(), ErrorKind::InvalidConfiguration);
}
