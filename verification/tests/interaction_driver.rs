use climax::bang::advanced::{replay_events, replay_step, unhandled_error};
use climax::bang::error::ErrorKind;
use climax::bang::error::Error;
use climax::bang::interaction::{interact_widget, interaction_from_runner, scripted_interaction, Interaction, InteractionRunner, InteractionWidget};
use climax::bang::prompt::{PromptOutcome, ReviewExit};
use climax::bang::typed::{multi_select, review, search, select, text, TextPrompt};
use climax::bang_core::action::{ActionBinding, ActionLayer};
use climax::bang_core::event::{Event, Key, KeyEvent, Modifiers};
use climax::bang_core::review::ReviewState;
use climax::bang_core::session::SessionStatus;
use climax::bang_core::text_input::TextInput;
use climax::bang_core::value::Value;
use climax::bang_core::widget::Reaction;

fn control(value: char) -> Event {
    Event::Key(KeyEvent::with_modifiers(Key::Char(value), Modifiers::CONTROL()))
}

#[test]
fn unclaimed_reserved_keys_cancel_and_end_input() {
    assert_eq!(
        replay_events(TextInput::new("value"), vec![control('c')]).unwrap_err().kind(),
        ErrorKind::Cancelled,
    );
    assert_eq!(
        replay_events(TextInput::new("value"), vec![control('d')]).unwrap_err().kind(),
        ErrorKind::InputEnded,
    );
}

#[test]
fn an_action_binding_can_claim_a_reserved_key() {
    let widget = ActionLayer::new(TextInput::new("value")).with_actions(vec![ActionBinding::control_char('c', "copy")]);

    let value = replay_events(widget, vec![control('c')]).unwrap();

    let Some(fields) = value.as_object() else {
        panic!("an action binding submits an object, got {value:?}");
    };
    let action = fields.iter().find(|(name, _)| name == "action").map(|(_, value)| value.clone());
    assert_eq!(action, Some(Value::String("copy".to_owned())));
}

#[test]
fn replay_submits_typed_text_and_ends_without_a_decision() {
    let events = vec![Event::char('h'), Event::char('i'), Event::key(Key::Enter)];
    assert_eq!(replay_events(TextInput::new("value"), events).unwrap(), Value::String("hi".to_owned()));
    assert_eq!(replay_events(TextInput::new("value"), Vec::new()).unwrap_err().kind(), ErrorKind::InputEnded);
    assert_eq!(
        replay_events(TextInput::new("value"), vec![Event::char('x')]).unwrap_err().kind(),
        ErrorKind::InputEnded,
    );
}

#[test]
fn replay_steps_follow_the_reaction_then_the_status() {
    assert!(unhandled_error(&Event::char('c')).is_none());
    assert_eq!(unhandled_error(&control('c')).unwrap().kind(), ErrorKind::Cancelled);
    assert_eq!(unhandled_error(&control('d')).unwrap().kind(), ErrorKind::InputEnded);

    let running = SessionStatus::Running;
    assert!(replay_step(Reaction::Changed, &running, None).is_none());
    assert!(replay_step(Reaction::Ignored, &running, None).is_none());
    let cancelled = replay_step(Reaction::Ignored, &running, unhandled_error(&control('c'))).unwrap();
    assert_eq!(cancelled.unwrap_err().kind(), ErrorKind::Cancelled);
    let claimed = replay_step(Reaction::Changed, &running, unhandled_error(&control('c')));
    assert!(claimed.is_none());
    let submitted = replay_step(
        Reaction::Submit(Value::Bool(true)),
        &SessionStatus::Submitted(Value::Bool(true)),
        None,
    );
    assert_eq!(submitted.unwrap().unwrap(), Value::Bool(true));
}

#[test]
fn scripted_interaction_drives_typed_prompts_without_a_terminal() {
    let interaction = scripted_interaction(vec![
        vec![Event::key(Key::Down), Event::key(Key::Enter)],
        vec![Event::char('A'), Event::char('d'), Event::char('a'), Event::key(Key::Enter)],
    ]);
    let selected = select("shell").choice("Bash", 10).choice("Zsh", 20).interaction(interaction.clone()).interact().unwrap();
    let text = TextPrompt::new("name").interaction(interaction).interact().unwrap();
    assert_eq!(selected, PromptOutcome::Submit(20));
    assert_eq!(text, PromptOutcome::Submit("Ada".to_owned()));
}

#[test]
fn cancellation_leaves_each_ordinary_typed_prompt() {
    let interaction = scripted_interaction(vec![
        vec![Event::key(Key::Esc)],
        vec![Event::key(Key::Esc)],
        vec![Event::key(Key::Esc)],
        vec![Event::key(Key::Esc)],
    ]);

    assert_eq!(
        select("shell").choice("Bash", 10).interaction(interaction.clone()).interact().unwrap(),
        PromptOutcome::Leave
    );
    assert_eq!(
        multi_select("shells").choice("Bash", 10).interaction(interaction.clone()).interact().unwrap(),
        PromptOutcome::Leave
    );
    assert_eq!(
        search("shell").choice("Bash", 10).interaction(interaction.clone()).interact().unwrap(),
        PromptOutcome::Leave
    );
    assert_eq!(text("name").interaction(interaction).interact().unwrap(), PromptOutcome::Leave);
}

#[test]
fn input_ending_without_a_decision_remains_an_error() {
    let interaction = scripted_interaction(vec![Vec::new()]);
    let error = text("name").interaction(interaction).interact().unwrap_err();
    assert_eq!(error.kind(), ErrorKind::InputEnded);
}

#[test]
fn disabled_interaction_fails_before_touching_the_terminal() {
    let error = select("shell").choice("Bash", 10).interaction(Interaction::disabled()).interact().unwrap_err();
    assert_eq!(error.kind(), ErrorKind::InteractionUnavailable);
}

#[test]
fn action_free_review_uses_the_ordinary_prompt_outcome() {
    let outcome = review("review")
        .item("one", 42, ReviewState::Unconfirmed)
        .interaction(scripted_interaction(vec![vec![Event::key(Key::Enter)]]))
        .interact()
        .unwrap();

    let PromptOutcome::Submit(items) = outcome else {
        panic!("review should submit");
    };
    assert_eq!(items[0].value(), &42);
}

#[test]
fn scripts_run_out_and_then_input_ends() {
    let interaction = scripted_interaction(vec![vec![Event::key(Key::Enter)]]);
    assert_eq!(
        select("shell").choice("Bash", 10).interaction(interaction.clone()).interact().unwrap(),
        PromptOutcome::Submit(10)
    );
    let error = select("shell").choice("Bash", 10).interaction(interaction).interact().unwrap_err();
    assert_eq!(error.kind(), ErrorKind::InputEnded);
}

#[test]
fn multi_select_gives_checked_values_in_choice_order() {
    let interaction = scripted_interaction(vec![vec![
        Event::key(Key::Down),
        Event::char(' '),
        Event::key(Key::Up),
        Event::char(' '),
        Event::key(Key::Enter),
    ]]);
    let outcome = multi_select("shells")
        .choice("Bash", 10)
        .choice("Zsh", 20)
        .choice("Fish", 30)
        .interaction(interaction)
        .interact()
        .unwrap();
    assert_eq!(outcome, PromptOutcome::Submit(vec![10, 20]));
}

#[test]
fn multi_select_starts_with_configured_rows_checked() {
    let interaction = scripted_interaction(vec![vec![Event::key(Key::Enter)]]);
    let outcome = multi_select("shells")
        .choice("Bash", 10)
        .choice("Zsh", 20)
        .checked(1)
        .interaction(interaction)
        .interact()
        .unwrap();
    assert_eq!(outcome, PromptOutcome::Submit(vec![20]));
}

#[test]
fn search_narrows_to_the_typed_query() {
    let interaction = scripted_interaction(vec![vec![Event::char('z'), Event::key(Key::Enter)]]);
    let outcome = search("shell")
        .choice("Bash", 10)
        .choice("Zsh", 20)
        .interaction(interaction)
        .interact()
        .unwrap();
    assert_eq!(outcome, PromptOutcome::Submit(20));
}

#[test]
fn text_prompt_starts_from_its_value() {
    let interaction = scripted_interaction(vec![vec![Event::char('!'), Event::key(Key::Enter)]]);
    let outcome = text("name: ").id("name").value("Ada").interaction(interaction).interact().unwrap();
    assert_eq!(outcome, PromptOutcome::Submit("Ada!".to_owned()));
}

#[test]
fn review_actions_come_back_typed() {
    let interaction = scripted_interaction(vec![vec![Event::char('e'), Event::key(Key::Enter)]]);
    let outcome = review("review")
        .item("one", 1, ReviewState::Unconfirmed)
        .action('e', "edit", "edit-action")
        .interaction(interaction)
        .interact()
        .unwrap();
    assert_eq!(outcome.exit(), &ReviewExit::Action("edit-action"));
    assert_eq!(outcome.accepted_items().unwrap().len(), 1);
}

#[test]
fn review_action_keys_are_checked_before_running() {
    let error = review("review")
        .item("one", 1, ReviewState::Unconfirmed)
        .action('j', "down", ())
        .interaction(Interaction::disabled())
        .interact()
        .unwrap_err();
    assert_eq!(error.kind(), ErrorKind::InvalidConfiguration);
    assert_eq!(error.to_string(), "review action key 'j' is reserved");
}

#[test]
fn live_interaction_without_the_renderer_is_unavailable() {
    let error = interact_widget(TextInput::new("value"), Vec::new()).unwrap_err();
    assert_eq!(error.kind(), ErrorKind::InteractionUnavailable);
    let error = select("shell").choice("Bash", 10).interact().unwrap_err();
    assert_eq!(error.kind(), ErrorKind::InteractionUnavailable);
}

struct PressesDown;

impl InteractionRunner for PressesDown {
    fn run(&self, widget: InteractionWidget) -> Result<Value, Error> {
        replay_events(widget, vec![Event::key(Key::Down), Event::key(Key::Enter)])
    }
}

struct AlwaysSubmits(&'static str);

impl InteractionRunner for AlwaysSubmits {
    fn run(&self, _widget: InteractionWidget) -> Result<Value, Error> {
        Ok(Value::String(self.0.to_owned()))
    }
}

#[test]
fn an_application_runner_drives_each_prompt() {
    let interaction = interaction_from_runner(PressesDown);
    let first = select("shell").choice("Bash", 10).choice("Zsh", 20).interaction(interaction.clone()).interact().unwrap();
    let second = select("editor").choice("vi", 1).choice("ed", 2).interaction(interaction).interact().unwrap();
    assert_eq!(first, PromptOutcome::Submit(20));
    assert_eq!(second, PromptOutcome::Submit(2));

    let unknown = select("shell").choice("Bash", 10).interaction(interaction_from_runner(AlwaysSubmits("7"))).interact();
    assert_eq!(unknown.unwrap_err().kind(), ErrorKind::UnexpectedValue);
}
