//! A single-line text input with a character cursor and an optional
//! validator consulted on submit.

use vstd::prelude::*;
use vstd::view::View as _;
use vstd::string::StringSliceAdditionalSpecFns;
use vstd::utf8::encode_utf8;

use crate::bang_core::event::{Event, Key, KeyEvent, Modifiers};
use crate::bang_core::ids::{CursorAnchor, ViewId, WidgetId};
use crate::bang_core::render::{ListPresentation, Role, Span, TextInputView, View, ViewContext};
use crate::bang_core::value::{Value, ValueModel};
use crate::bang_core::widget::{Context, Reaction, Widget};
use crate::text::{chars_of, push_str, string_of, IntoText};

verus! {

/// A check of the text a user submits: `Err` holds the message to show.
pub trait Validate: Send + Sync {
    fn validate(&self, value: &str) -> Result<(), String>;
}

/// Call a validator closure on a text. Nothing is known of what it returns.
#[verifier::external_body]
fn call_validator<F: Fn(&str) -> Result<(), String>>(validator: &F, value: &str) -> Result<(), String> {
    validator(value)
}

impl<F: Fn(&str) -> Result<(), String> + Send + Sync> Validate for F {
    fn validate(&self, value: &str) -> Result<(), String> {
        call_validator(self, value)
    }
}

/// A control character: general category `Cc`, as `char::is_control` has it.
pub open spec fn is_control_code(c: char) -> bool {
    (c as u32) <= 0x1f || (0x7f <= (c as u32) && (c as u32) <= 0x9f)
}

pub fn is_control_char(c: char) -> (control: bool)
    ensures
        control == is_control_code(c),
{
    let code = c as u32;
    code <= 0x1f || (0x7f <= code && code <= 0x9f)
}

/// A text without its control characters.
pub open spec fn without_controls(text: Seq<char>) -> Seq<char>
    decreases text.len(),
{
    if text.len() == 0 {
        Seq::empty()
    } else if is_control_code(text.last()) {
        without_controls(text.drop_last())
    } else {
        without_controls(text.drop_last()).push(text.last())
    }
}

/// The state of an input that an event changes.
pub struct InputState {
    pub text: Seq<char>,
    pub cursor: nat,
    pub error: Option<Seq<char>>,
}

/// What an event asks of an input.
pub enum InputOutcome {
    Ignored,
    Changed,
    Submit,
    Cancel,
}

/// `inserted` put into `text` at `cursor`.
pub open spec fn insert_at(text: Seq<char>, cursor: nat, inserted: Seq<char>) -> Seq<char> {
    text.subrange(0, cursor as int) + inserted + text.subrange(cursor as int, text.len() as int)
}

/// The character at `at` taken out of `text`.
pub open spec fn remove_at(text: Seq<char>, at: int) -> Seq<char> {
    text.subrange(0, at) + text.subrange(at + 1, text.len() as int)
}

/// How an event changes an input: editing keys edit at the cursor and clear
/// the error, movement keys move the cursor, Enter asks to submit, Esc to
/// cancel; a key that cannot act is ignored.
pub open spec fn input_step(state: InputState, event: Event) -> (InputState, InputOutcome) {
    let text = state.text;
    let cursor = state.cursor;
    let ignored = (state, InputOutcome::Ignored);
    match event {
        Event::Key(key) => match key.key {
            Key::Char(c) => if key.modifiers.0 != 0 || is_control_code(c) {
                ignored
            } else {
                (
                    InputState { text: insert_at(text, cursor, seq![c]), cursor: cursor + 1, error: None },
                    InputOutcome::Changed,
                )
            },
            Key::Backspace => if cursor == 0 {
                ignored
            } else {
                (
                    InputState {
                        text: remove_at(text, cursor - 1),
                        cursor: (cursor - 1) as nat,
                        error: None,
                    },
                    InputOutcome::Changed,
                )
            },
            Key::Delete => if cursor >= text.len() {
                ignored
            } else {
                (
                    InputState { text: remove_at(text, cursor as int), cursor, error: None },
                    InputOutcome::Changed,
                )
            },
            Key::Left => if cursor == 0 {
                ignored
            } else {
                (InputState { cursor: (cursor - 1) as nat, ..state }, InputOutcome::Changed)
            },
            Key::Right => if cursor >= text.len() {
                ignored
            } else {
                (InputState { cursor: cursor + 1, ..state }, InputOutcome::Changed)
            },
            Key::Home => if cursor == 0 {
                ignored
            } else {
                (InputState { cursor: 0, ..state }, InputOutcome::Changed)
            },
            Key::End => if cursor >= text.len() {
                ignored
            } else {
                (InputState { cursor: text.len(), ..state }, InputOutcome::Changed)
            },
            Key::Enter => (state, InputOutcome::Submit),
            Key::Esc => (state, InputOutcome::Cancel),
            _ => ignored,
        },
        Event::Paste(pasted) => {
            let kept = without_controls(pasted@);
            if kept.len() == 0 {
                ignored
            } else {
                (
                    InputState {
                        text: insert_at(text, cursor, kept),
                        cursor: cursor + kept.len(),
                        error: None,
                    },
                    InputOutcome::Changed,
                )
            }
        },
        _ => ignored,
    }
}

/// Typing and pasting insert at the cursor and leave the cursor just after
/// what they inserted: the text before the old cursor and the text after
/// the new cursor are the old text on either side of the old cursor, and
/// what lies between is the typed character or the kept pasted text.
pub proof fn law_insertion_leaves_cursor_after_it(state: InputState, event: Event)
    requires
        state.cursor <= state.text.len(),
    ensures
        ({
            let (next, outcome) = input_step(state, event);
            let inserted = next.text.subrange(state.cursor as int, next.cursor as int);
            (event is Paste || (event matches Event::Key(k) && k.key is Char)) && outcome is Changed ==> {
                &&& state.cursor <= next.cursor <= next.text.len()
                &&& next.text.subrange(0, state.cursor as int) == state.text.subrange(0, state.cursor as int)
                &&& next.text.subrange(next.cursor as int, next.text.len() as int) == state.text.subrange(
                    state.cursor as int,
                    state.text.len() as int,
                )
                &&& (event matches Event::Paste(p) ==> inserted == without_controls(p@) && inserted.len() > 0)
                &&& (event matches Event::Key(k) ==> k.key matches Key::Char(c) && inserted == seq![c])
            }
        }),
{
    let (next, outcome) = input_step(state, event);
    if (event is Paste || (event matches Event::Key(k) && k.key is Char)) && outcome is Changed {
        assert(next.text =~= state.text.subrange(0, state.cursor as int) + next.text.subrange(state.cursor as int, next.cursor as int)
            + state.text.subrange(state.cursor as int, state.text.len() as int));
        assert(next.text.subrange(0, state.cursor as int) =~= state.text.subrange(0, state.cursor as int));
        assert(next.text.subrange(next.cursor as int, next.text.len() as int) =~= state.text.subrange(
            state.cursor as int,
            state.text.len() as int,
        ));
    }
}

/// A key with no modifier held.
pub open spec fn bare_key(key: Key) -> Event {
    Event::Key(KeyEvent { key, modifiers: Modifiers(0) })
}

/// The editing and movement keys: Backspace removes the character before
/// the cursor and Delete the one under it, each keeping the rest of the
/// text on either side; Left, Right, Home and End move the cursor by one,
/// to the start or to the end, keeping the text; Enter asks to submit and
/// Esc to cancel, keeping everything. At an edge a key that cannot act is
/// ignored.
pub proof fn law_editing_keys(state: InputState)
    requires
        state.cursor <= state.text.len(),
    ensures
        ({
            let text = state.text;
            let c = state.cursor as int;
            let n = text.len() as int;
            let (back, back_outcome) = input_step(state, bare_key(Key::Backspace));
            let (del, del_outcome) = input_step(state, bare_key(Key::Delete));
            let (left, _) = input_step(state, bare_key(Key::Left));
            let (right, _) = input_step(state, bare_key(Key::Right));
            let (home, _) = input_step(state, bare_key(Key::Home));
            let (end, _) = input_step(state, bare_key(Key::End));
            &&& c > 0 ==> back_outcome is Changed && back.cursor == c - 1 && back.text.len() == n - 1
                && back.text.subrange(0, c - 1) == text.subrange(0, c - 1) && back.text.subrange(c - 1, n - 1)
                == text.subrange(c, n)
            &&& c == 0 ==> back_outcome is Ignored && back == state
            &&& c < n ==> del_outcome is Changed && del.cursor == c && del.text.len() == n - 1 && del.text.subrange(0, c)
                == text.subrange(0, c) && del.text.subrange(c, n - 1) == text.subrange(c + 1, n)
            &&& c == n ==> del_outcome is Ignored && del == state
            &&& left.text == text && left.cursor == if c > 0 { c - 1 } else { c }
            &&& right.text == text && right.cursor == if c < n { c + 1 } else { c }
            &&& home.text == text && home.cursor == 0
            &&& end.text == text && end.cursor == n
            &&& input_step(state, bare_key(Key::Enter)) == (state, InputOutcome::Submit)
            &&& input_step(state, bare_key(Key::Esc)) == (state, InputOutcome::Cancel)
        }),
{
    let text = state.text;
    let c = state.cursor as int;
    let n = text.len() as int;
    if c > 0 {
        let back = input_step(state, bare_key(Key::Backspace)).0;
        assert(back.text.subrange(0, c - 1) =~= text.subrange(0, c - 1));
        assert(back.text.subrange(c - 1, n - 1) =~= text.subrange(c, n));
    }
    if c < n {
        let del = input_step(state, bare_key(Key::Delete)).0;
        assert(del.text.subrange(0, c) =~= text.subrange(0, c));
        assert(del.text.subrange(c, n - 1) =~= text.subrange(c + 1, n));
    }
}

/// A character a person types: not one of the C0 or C1 control codes nor
/// Delete.
pub open spec fn printable(c: char) -> bool {
    (0x20 <= (c as u32) && (c as u32) <= 0x7e) || (c as u32) >= 0xa0
}

proof fn lemma_printable_text_kept(text: Seq<char>)
    requires
        forall|i: int| 0 <= i < text.len() ==> printable(#[trigger] text[i]),
    ensures
        without_controls(text) == text,
    decreases text.len(),
{
    if text.len() > 0 {
        assert(printable(text[text.len() - 1]));
        lemma_printable_text_kept(text.drop_last());
        assert(text.drop_last().push(text.last()) =~= text);
    }
}

/// Typing a printable character with no modifier puts it at the cursor and
/// moves the cursor past it; pasting printable text puts all of it at the
/// cursor and moves the cursor past it; control characters are never
/// typed, and a key held with a modifier types nothing.
pub proof fn law_printable_input_is_inserted(state: InputState, c: char, pasted: String, held: u8)
    requires
        state.cursor <= state.text.len(),
        held != 0,
    ensures
        ({
            let text = state.text;
            let at = state.cursor as int;
            let before = text.subrange(0, at);
            let after = text.subrange(at, text.len() as int);
            let typed = input_step(state, Event::Key(KeyEvent { key: Key::Char(c), modifiers: Modifiers(0) }));
            &&& printable(c) ==> typed.1 is Changed && typed.0.text == before + seq![c] + after && typed.0.cursor == at
                + 1
            &&& !printable(c) && c != '\u{7f}' && (c as u32) < 0xa0 ==> typed.1 is Ignored
            &&& input_step(state, Event::Key(KeyEvent { key: Key::Char(c), modifiers: Modifiers(held) })).1 is Ignored
            &&& (forall|i: int| 0 <= i < pasted@.len() ==> printable(#[trigger] pasted@[i])) && pasted@.len() > 0
                ==> ({
                let (next, outcome) = input_step(state, Event::Paste(pasted));
                outcome is Changed && next.text == before + pasted@ + after && next.cursor == at + pasted@.len()
            })
        }),
{
    if (forall|i: int| 0 <= i < pasted@.len() ==> printable(#[trigger] pasted@[i])) {
        lemma_printable_text_kept(pasted@);
    }
}

/// A single-line text input.
pub struct TextInput {
    id: WidgetId,
    prompt: Vec<Span>,
    placeholder: Option<String>,
    value: String,
    /// The cursor, counted in characters.
    cursor: usize,
    error: Option<String>,
    validator: Option<Box<dyn Validate>>,
}

impl TextInput {
    #[verifier::type_invariant]
    spec fn cursor_in_text(self) -> bool {
        self.cursor <= self.value@.len()
    }

    pub closed spec fn identity_text(&self) -> Seq<char> {
        self.id@
    }

    pub closed spec fn text(&self) -> Seq<char> {
        self.value@
    }

    pub closed spec fn cursor_index(&self) -> nat {
        self.cursor as nat
    }

    pub closed spec fn error_text(&self) -> Option<Seq<char>> {
        match self.error {
            Some(e) => Some(e@),
            None => None,
        }
    }

    pub closed spec fn prompt_spans(&self) -> Seq<Span> {
        self.prompt@
    }

    pub closed spec fn placeholder_text(&self) -> Option<Seq<char>> {
        match self.placeholder {
            Some(p) => Some(p@),
            None => None,
        }
    }

    pub closed spec fn validated(&self) -> bool {
        self.validator is Some
    }

    /// The state that events change.
    pub open spec fn state(&self) -> InputState {
        InputState { text: self.text(), cursor: self.cursor_index(), error: self.error_text() }
    }

    /// An empty input.
    pub fn new<T: IntoText>(id: T) -> (input: Self)
        ensures
            input.identity_text() == id.text_chars(),
            input.text().len() == 0,
            input.cursor_index() == 0,
            input.error_text() is None,
            input.prompt_spans().len() == 0,
            input.placeholder_text() is None,
            !input.validated(),
    {
        TextInput {
            id: WidgetId::owned(id),
            prompt: Vec::new(),
            placeholder: None,
            value: String::new(),
            cursor: 0,
            error: None,
            validator: None,
        }
    }

    pub fn with_prompt<T: IntoText>(self, prompt: T) -> (input: Self)
        ensures
            input.prompt_spans().len() == 1,
            input.prompt_spans()[0].text@ == prompt.text_chars(),
            input.prompt_spans()[0].role == Role::Prompt,
            input.state() == self.state(),
            input.identity_text() == self.identity_text(),
            input.placeholder_text() == self.placeholder_text(),
            input.validated() == self.validated(),
    {
        let mut input = self;
        input.set_prompt(prompt);
        input
    }

    /// Show the prompt as one span with the prompt role.
    pub fn set_prompt<T: IntoText>(&mut self, prompt: T)
        ensures
            final(self).prompt_spans().len() == 1,
            final(self).prompt_spans()[0].text@ == prompt.text_chars(),
            final(self).prompt_spans()[0].role == Role::Prompt,
            final(self).state() == old(self).state(),
            final(self).identity_text() == old(self).identity_text(),
            final(self).placeholder_text() == old(self).placeholder_text(),
            final(self).validated() == old(self).validated(),
    {
        proof {
            use_type_invariant(&*self);
        }
        let mut spans: Vec<Span> = Vec::new();
        spans.push(Span::new(prompt, Role::Prompt));
        self.prompt = spans;
    }

    pub fn with_prompt_spans(self, prompt: Vec<Span>) -> (input: Self)
        ensures
            input.prompt_spans() == prompt@,
            input.state() == self.state(),
            input.identity_text() == self.identity_text(),
    {
        let mut input = self;
        input.set_prompt_spans(prompt);
        input
    }

    pub fn set_prompt_spans(&mut self, prompt: Vec<Span>)
        ensures
            final(self).prompt_spans() == prompt@,
            final(self).state() == old(self).state(),
            final(self).identity_text() == old(self).identity_text(),
            final(self).placeholder_text() == old(self).placeholder_text(),
            final(self).validated() == old(self).validated(),
    {
        proof {
            use_type_invariant(&*self);
        }
        self.prompt = prompt;
    }

    pub fn with_placeholder<T: IntoText>(self, placeholder: T) -> (input: Self)
        ensures
            input.placeholder_text() == Some(placeholder.text_chars()),
            input.state() == self.state(),
            input.identity_text() == self.identity_text(),
            input.prompt_spans() == self.prompt_spans(),
            input.validated() == self.validated(),
    {
        let mut input = self;
        proof {
            use_type_invariant(&input);
        }
        input.placeholder = Some(placeholder.into_text());
        input
    }

    /// The input holding `value`, with the cursor at its end.
    pub fn with_value<T: IntoText>(self, value: T) -> (input: Self)
        ensures
            input.text() == value.text_chars(),
            input.cursor_index() == value.text_chars().len(),
            input.error_text() == self.error_text(),
            input.identity_text() == self.identity_text(),
            input.prompt_spans() == self.prompt_spans(),
            input.placeholder_text() == self.placeholder_text(),
            input.validated() == self.validated(),
    {
        let text = value.into_text();
        let length = text.as_str().unicode_len();
        TextInput {
            id: self.id,
            prompt: self.prompt,
            placeholder: self.placeholder,
            value: text,
            cursor: length,
            error: self.error,
            validator: self.validator,
        }
    }

    /// The input checked on submit by `validator`.
    pub fn with_validator<F: Validate + 'static>(self, validator: F) -> (input: Self)
        ensures
            input.validated(),
            input.state() == self.state(),
            input.identity_text() == self.identity_text(),
            input.prompt_spans() == self.prompt_spans(),
            input.placeholder_text() == self.placeholder_text(),
    {
        let mut input = self;
        proof {
            use_type_invariant(&input);
        }
        input.validator = Some(Box::new(validator));
        input
    }

    /// The input as a view: prompt, text, placeholder, cursor and error.
    /// Validate with a validator that is already boxed.
    pub(crate) fn with_boxed_validator(self, validator: Box<dyn Validate>) -> (input: Self)
        ensures
            input.validated(),
            input.state() == self.state(),
            input.identity_text() == self.identity_text(),
            input.prompt_spans() == self.prompt_spans(),
            input.placeholder_text() == self.placeholder_text(),
    {
        let mut input = self;
        proof {
            use_type_invariant(&input);
        }
        input.validator = Some(validator);
        input
    }

    pub(crate) fn input_view(&self) -> (view: TextInputView)
        ensures
            view.value@ == self.text(),
            view.cursor == self.cursor_index(),
    {
        proof {
            use_type_invariant(self);
        }
        let mut view_id = String::new();
        push_str(&mut view_id, self.id.as_str());
        push_str(&mut view_id, "/input");
        let mut anchor = String::new();
        push_str(&mut anchor, self.id.as_str());
        push_str(&mut anchor, "/cursor");
        TextInputView {
            id: Some(ViewId::owned(view_id)),
            prompt: self.prompt.clone(),
            value: self.value.clone(),
            placeholder: self.placeholder.clone(),
            cursor: self.cursor,
            cursor_anchor: CursorAnchor::owned(anchor),
            error: self.error.clone(),
        }
    }

    pub fn value(&self) -> (value: &str)
        ensures
            value@ == self.text(),
    {
        self.value.as_str()
    }

    /// The cursor as a byte offset into the value: the length of the UTF-8
    /// encoding of the characters before it.
    pub fn cursor_byte_index(&self) -> (index: usize)
        ensures
            index == encode_utf8(self.text().subrange(0, self.cursor_index() as int)).len() as usize,
    {
        proof {
            use_type_invariant(self);
        }
        let chars = chars_of(self.value.as_str());
        let mut before: Vec<char> = Vec::new();
        let mut i: usize = 0;
        while i < self.cursor
            invariant
                i <= self.cursor <= chars@.len(),
                chars@ == self.value@,
                before@ == chars@.subrange(0, i as int),
            decreases self.cursor - i,
        {
            before.push(chars[i]);
            assert(before@ =~= chars@.subrange(0, i + 1));
            i += 1;
        }
        let prefix = string_of(&before);
        prefix.as_str().len()
    }

    /// The cursor counted in characters.
    pub fn cursor_char_index(&self) -> (index: usize)
        ensures
            index == self.cursor_index(),
    {
        self.cursor
    }

    fn set_text(&mut self, chars: &Vec<char>, cursor: usize)
        requires
            cursor <= chars@.len(),
        ensures
            final(self).text() == chars@,
            final(self).cursor_index() == cursor,
            final(self).error_text() is None,
            final(self).identity_text() == old(self).identity_text(),
            final(self).prompt_spans() == old(self).prompt_spans(),
            final(self).placeholder_text() == old(self).placeholder_text(),
            final(self).validated() == old(self).validated(),
    {
        let text = string_of(chars);
        self.cursor = 0;
        self.value = text;
        self.cursor = cursor;
        self.error = None;
    }

    /// Settle a submit by what the validator answered: an error is shown and
    /// nothing is submitted; otherwise the error clears and the text is
    /// submitted.
    pub fn apply_validation(&mut self, outcome: Result<(), String>) -> (reaction: Reaction)
        ensures
            match outcome {
                Ok(()) => reaction matches Reaction::Submit(v) && v@ == ValueModel::Text(old(self).text())
                    && final(self).error_text() is None,
                Err(message) => reaction is Changed && final(self).error_text() == Some(message@),
            },
            final(self).text() == old(self).text(),
            final(self).cursor_index() == old(self).cursor_index(),
            final(self).identity_text() == old(self).identity_text(),
            final(self).prompt_spans() == old(self).prompt_spans(),
            final(self).placeholder_text() == old(self).placeholder_text(),
            final(self).validated() == old(self).validated(),
    {
        proof {
            use_type_invariant(&*self);
        }
        match outcome {
            Ok(()) => {
                self.error = None;
                Reaction::Submit(Value::String(self.value.clone()))
            },
            Err(message) => {
                self.error = Some(message);
                Reaction::Changed
            },
        }
    }

    fn submit(&mut self) -> (reaction: Reaction)
        ensures
            !old(self).validated() ==> (reaction matches Reaction::Submit(v) && v@ == ValueModel::Text(
                old(self).text(),
            ) && final(self).state() == old(self).state()),
            old(self).validated() ==> ((reaction matches Reaction::Submit(v) && v@ == ValueModel::Text(
                old(self).text(),
            ) && final(self).error_text() is None) || (reaction is Changed
                && final(self).error_text() is Some)),
            final(self).text() == old(self).text(),
            final(self).cursor_index() == old(self).cursor_index(),
            final(self).identity_text() == old(self).identity_text(),
            final(self).prompt_spans() == old(self).prompt_spans(),
            final(self).placeholder_text() == old(self).placeholder_text(),
            final(self).validated() == old(self).validated(),
    {
        let outcome = match &self.validator {
            Some(validator) => Some(validator.validate(self.value.as_str())),
            None => None,
        };
        match outcome {
            Some(outcome) => self.apply_validation(outcome),
            None => Reaction::Submit(Value::String(self.value.clone())),
        }
    }
}

/// The reaction to an outcome other than a submit.
pub open spec fn plain_reaction(outcome: InputOutcome, reaction: Reaction) -> bool {
    match outcome {
        InputOutcome::Ignored => reaction is Ignored,
        InputOutcome::Changed => reaction is Changed,
        InputOutcome::Cancel => reaction is Cancel,
        InputOutcome::Submit => true,
    }
}

impl Widget for TextInput {
    open spec fn identity(&self) -> Seq<char> {
        self.identity_text()
    }

    open spec fn held_value(&self) -> Option<ValueModel> {
        Some(ValueModel::Text(self.text()))
    }

    /// The text after the event: the edited text, or the same text on a
    /// submit.
    open spec fn holds_after(&self, event: Event, layout: Seq<ListPresentation>, value: Option<ValueModel>) -> bool {
        let (next, outcome) = input_step(self.state(), event);
        value == Some(ValueModel::Text(if outcome is Submit { self.text() } else { next.text }))
    }

    open spec fn reacts(&self, event: Event, layout: Seq<ListPresentation>, reaction: Reaction) -> bool {
        let (next, outcome) = input_step(self.state(), event);
        match outcome {
            InputOutcome::Submit => if self.validated() {
                (reaction matches Reaction::Submit(v) && v@ == ValueModel::Text(self.text())) || reaction is Changed
            } else {
                reaction matches Reaction::Submit(v) && v@ == ValueModel::Text(self.text())
            },
            _ => plain_reaction(outcome, reaction),
        }
    }

    fn id(&self) -> (id: WidgetId) {
        self.id.clone()
    }

    /// Edit, move or submit as [`input_step`] says; on submit the text is
    /// submitted, unless a validator refuses it, which shows its message.
    fn handle(&mut self, event: Event, cx: &mut Context) -> (reaction: Reaction)
        ensures
            ({
                let (next, outcome) = input_step(old(self).state(), event);
                match outcome {
                    InputOutcome::Submit => final(self).text() == old(self).text()
                        && final(self).cursor_index() == old(self).cursor_index() && if old(
                        self,
                    ).validated() {
                        (reaction matches Reaction::Submit(v) && v@ == ValueModel::Text(old(self).text())
                            && final(self).error_text() is None) || (reaction is Changed
                            && final(self).error_text() is Some)
                    } else {
                        reaction matches Reaction::Submit(v) && v@ == ValueModel::Text(old(self).text())
                            && final(self).error_text() == old(self).error_text()
                    },
                    _ => final(self).state() == next && plain_reaction(outcome, reaction),
                }
            }),
            final(self).identity_text() == old(self).identity_text(),
            final(self).prompt_spans() == old(self).prompt_spans(),
            final(self).placeholder_text() == old(self).placeholder_text(),
            final(self).validated() == old(self).validated(),
    {
        proof {
            use_type_invariant(&*self);
        }
        let ghost state = self.state();
        match event {
            Event::Key(key) => match key.key {
                Key::Char(c) => {
                    if key.modifiers.0 != 0 || is_control_char(c) {
                        return Reaction::Ignored;
                    }
                    let mut chars = chars_of(self.value.as_str());
                    chars.insert(self.cursor, c);
                    assert(chars@ =~= insert_at(state.text, state.cursor, seq![c]));
                    assert(self.cursor < chars.len());
                    let cursor = self.cursor + 1;
                    self.set_text(&chars, cursor);
                    Reaction::Changed
                },
                Key::Backspace => {
                    if self.cursor == 0 {
                        return Reaction::Ignored;
                    }
                    let mut chars = chars_of(self.value.as_str());
                    let at = self.cursor - 1;
                    chars.remove(at);
                    assert(chars@ =~= remove_at(state.text, at as int));
                    self.set_text(&chars, at);
                    Reaction::Changed
                },
                Key::Delete => {
                    let mut chars = chars_of(self.value.as_str());
                    if self.cursor >= chars.len() {
                        return Reaction::Ignored;
                    }
                    let at = self.cursor;
                    chars.remove(at);
                    assert(chars@ =~= remove_at(state.text, at as int));
                    self.set_text(&chars, at);
                    Reaction::Changed
                },
                Key::Left => {
                    if self.cursor == 0 {
                        return Reaction::Ignored;
                    }
                    self.cursor = self.cursor - 1;
                    Reaction::Changed
                },
                Key::Right => {
                    if self.cursor >= self.value.as_str().unicode_len() {
                        return Reaction::Ignored;
                    }
                    self.cursor = self.cursor + 1;
                    Reaction::Changed
                },
                Key::Home => {
                    if self.cursor == 0 {
                        return Reaction::Ignored;
                    }
                    self.cursor = 0;
                    Reaction::Changed
                },
                Key::End => {
                    let length = self.value.as_str().unicode_len();
                    if self.cursor >= length {
                        return Reaction::Ignored;
                    }
                    self.cursor = length;
                    Reaction::Changed
                },
                Key::Enter => self.submit(),
                Key::Esc => Reaction::Cancel,
                _ => Reaction::Ignored,
            },
            Event::Paste(pasted) => {
                let pasted_chars = chars_of(pasted.as_str());
                let mut kept: Vec<char> = Vec::new();
                let mut i: usize = 0;
                while i < pasted_chars.len()
                    invariant
                        i <= pasted_chars@.len(),
                        kept@ == without_controls(pasted_chars@.subrange(0, i as int)),
                    decreases pasted_chars@.len() - i,
                {
                    let c = pasted_chars[i];
                    if !is_control_char(c) {
                        kept.push(c);
                    }
                    assert(pasted_chars@.subrange(0, i + 1).drop_last() =~= pasted_chars@.subrange(
                        0,
                        i as int,
                    ));
                    i += 1;
                }
                assert(pasted_chars@.subrange(0, pasted_chars@.len() as int) =~= pasted_chars@);
                if kept.len() == 0 {
                    return Reaction::Ignored;
                }
                let chars = chars_of(self.value.as_str());
                let mut edited: Vec<char> = Vec::new();
                let mut j: usize = 0;
                while j < self.cursor
                    invariant
                        j <= self.cursor <= chars@.len(),
                        edited@ == chars@.subrange(0, j as int),
                    decreases self.cursor - j,
                {
                    edited.push(chars[j]);
                    assert(edited@ =~= chars@.subrange(0, j + 1));
                    j += 1;
                }
                let mut k: usize = 0;
                while k < kept.len()
                    invariant
                        k <= kept@.len(),
                        self.cursor <= chars@.len(),
                        edited@ == chars@.subrange(0, self.cursor as int) + kept@.subrange(0, k as int),
                    decreases kept@.len() - k,
                {
                    edited.push(kept[k]);
                    assert(edited@ =~= chars@.subrange(0, self.cursor as int) + kept@.subrange(0, k + 1));
                    k += 1;
                }
                let mut m: usize = self.cursor;
                while m < chars.len()
                    invariant
                        self.cursor <= m <= chars@.len(),
                        edited@ == chars@.subrange(0, self.cursor as int) + kept@ + chars@.subrange(
                            self.cursor as int,
                            m as int,
                        ),
                    decreases chars@.len() - m,
                {
                    edited.push(chars[m]);
                    assert(edited@ =~= chars@.subrange(0, self.cursor as int) + kept@ + chars@.subrange(
                        self.cursor as int,
                        m + 1,
                    ));
                    m += 1;
                }
                assert(kept@.subrange(0, kept@.len() as int) =~= kept@);
                assert(edited@ =~= insert_at(state.text, state.cursor, kept@));
                let total = edited.len();
                assert(self.cursor + kept@.len() <= total);
                let cursor = self.cursor + kept.len();
                self.set_text(&edited, cursor);
                Reaction::Changed
            },
            _ => Reaction::Ignored,
        }
    }

    /// The input line with its text and cursor.
    open spec fn shows(&self, cx: ViewContext, view: View) -> bool {
        view matches View::TextInput(input) && input.value@ == self.text() && input.cursor == self.cursor_index()
    }

    fn view(&self, cx: &ViewContext) -> (view: View) {
        View::TextInput(self.input_view())
    }

    fn current_value(&self) -> (value: Option<Value>) {
        Some(Value::String(self.value.clone()))
    }
}

} // verus!
