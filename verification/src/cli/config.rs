//! Widget configurations: the raw form a configuration file is read into,
//! and the checked form a widget is built from; and the key syntax of
//! action bindings.

use vstd::prelude::*;
use vstd::view::View as _;

use crate::bang_core::action::ActionBinding;
use crate::bang_core::event::{Key, KeyEvent, Modifiers};
use crate::bang_core::review::{invalid_state_message, state_named, ReviewActionBinding, ReviewState};
use crate::bang_core::select::SelectItem;
use crate::bang_core::text_input::{is_control_char, is_control_code, TextInput};
use crate::bang_core::value::{date_from_text, invalid_date_message, Date, Value, ValueModel};
use crate::text::{
    ascii_lower, char_debug, char_debug_text, chars_are, chars_of, decimal_chars, first_occurrence, lower_chars,
    lower_text, push_char, push_decimal, push_str, string_of, string_of_range, strip_prefix_len, to_ascii_lower,
};

verus! {

/// The kind of widget a configuration describes.
#[derive(Clone, Copy, Debug, PartialEq, Eq, Structural)]
pub enum WidgetKind {
    Select,
    MultiSelect,
    Text,
    Search,
    Form,
    Date,
    ReviewList,
}

/// The kind as a configuration file names it.
#[derive(Clone, Copy, Debug, PartialEq, Eq, Structural)]
pub enum RawWidgetKind {
    Select,
    MultiSelect,
    Text,
    Search,
    Form,
    Date,
    ReviewList,
}

pub open spec fn kind_name(kind: RawWidgetKind) -> Seq<char> {
    match kind {
        RawWidgetKind::Select => "select"@,
        RawWidgetKind::MultiSelect => "multi-select"@,
        RawWidgetKind::Text => "text"@,
        RawWidgetKind::Search => "search"@,
        RawWidgetKind::Form => "form"@,
        RawWidgetKind::Date => "date"@,
        RawWidgetKind::ReviewList => "review-list"@,
    }
}

pub open spec fn widget_kind_of(kind: RawWidgetKind) -> WidgetKind {
    match kind {
        RawWidgetKind::Select => WidgetKind::Select,
        RawWidgetKind::MultiSelect => WidgetKind::MultiSelect,
        RawWidgetKind::Text => WidgetKind::Text,
        RawWidgetKind::Search => WidgetKind::Search,
        RawWidgetKind::Form => WidgetKind::Form,
        RawWidgetKind::Date => WidgetKind::Date,
        RawWidgetKind::ReviewList => WidgetKind::ReviewList,
    }
}

/// Kinds that list options need at least one.
pub open spec fn lists_options(kind: RawWidgetKind) -> bool {
    kind == RawWidgetKind::Select || kind == RawWidgetKind::MultiSelect || kind == RawWidgetKind::Search || kind
        == RawWidgetKind::ReviewList
}

impl RawWidgetKind {
    pub fn name(self) -> (name: &'static str)
        ensures
            name@ == kind_name(self),
    {
        match self {
            RawWidgetKind::Select => "select",
            RawWidgetKind::MultiSelect => "multi-select",
            RawWidgetKind::Text => "text",
            RawWidgetKind::Search => "search",
            RawWidgetKind::Form => "form",
            RawWidgetKind::Date => "date",
            RawWidgetKind::ReviewList => "review-list",
        }
    }

    fn lists_options(self) -> (lists: bool)
        ensures
            lists == lists_options(self),
    {
        match self {
            RawWidgetKind::Select | RawWidgetKind::MultiSelect | RawWidgetKind::Search | RawWidgetKind::ReviewList => true,
            _ => false,
        }
    }
}

impl From<RawWidgetKind> for WidgetKind {
    fn from(value: RawWidgetKind) -> (kind: Self) {
        match value {
            RawWidgetKind::Select => WidgetKind::Select,
            RawWidgetKind::MultiSelect => WidgetKind::MultiSelect,
            RawWidgetKind::Text => WidgetKind::Text,
            RawWidgetKind::Search => WidgetKind::Search,
            RawWidgetKind::Form => WidgetKind::Form,
            RawWidgetKind::Date => WidgetKind::Date,
            RawWidgetKind::ReviewList => WidgetKind::ReviewList,
        }
    }
}

impl vstd::std_specs::convert::FromSpecImpl<RawWidgetKind> for WidgetKind {
    open spec fn obeys_from_spec() -> bool {
        true
    }

    open spec fn from_spec(v: RawWidgetKind) -> WidgetKind {
        widget_kind_of(v)
    }
}

// ---------------------------------------------------------------------------
// Keys of actions.

/// A character that is an ASCII letter.
pub open spec fn is_ascii_letter(c: char) -> bool {
    ('a' <= c <= 'z') || ('A' <= c <= 'Z')
}

/// A review action key: exactly one character that is no control
/// character.
pub open spec fn action_key_result(value: Seq<char>) -> Result<char, Seq<char>> {
    if value.len() == 0 {
        Err("review action key cannot be empty"@)
    } else if value.len() > 1 || is_control_code(value[0]) {
        Err("review action key '"@ + value + "' must be one printable character"@)
    } else {
        Ok(value[0])
    }
}

/// The letter of a control key: exactly one ASCII letter, made small.
pub open spec fn control_key_result(key: Seq<char>, written: Seq<char>) -> Result<char, Seq<char>> {
    if key.len() == 0 {
        Err("control action key cannot be empty"@)
    } else if key.len() > 1 || !is_ascii_letter(key[0]) {
        Err("control action key '"@ + written + "' must use ctrl- plus one letter"@)
    } else {
        Ok(ascii_lower(key[0]))
    }
}

/// The key a name stands for, written small.
pub open spec fn named_key(name: Seq<char>) -> Option<Key> {
    if name == "enter"@ {
        Some(Key::Enter)
    } else if name == "esc"@ || name == "escape"@ {
        Some(Key::Esc)
    } else if name == "tab"@ {
        Some(Key::Tab)
    } else if name == "backtab"@ || name == "shift-tab"@ {
        Some(Key::Backtab)
    } else if name == "backspace"@ {
        Some(Key::Backspace)
    } else if name == "delete"@ || name == "del"@ {
        Some(Key::Delete)
    } else if name == "up"@ {
        Some(Key::Up)
    } else if name == "down"@ {
        Some(Key::Down)
    } else if name == "left"@ {
        Some(Key::Left)
    } else if name == "right"@ {
        Some(Key::Right)
    } else if name == "home"@ {
        Some(Key::Home)
    } else if name == "end"@ {
        Some(Key::End)
    } else if name == "page-up"@ || name == "pageup"@ {
        Some(Key::PageUp)
    } else if name == "page-down"@ || name == "pagedown"@ {
        Some(Key::PageDown)
    } else {
        None
    }
}

/// Whether `text` begins with `prefix`.
pub open spec fn starts_with(text: Seq<char>, prefix: Seq<char>) -> bool {
    prefix.len() <= text.len() && text.subrange(0, prefix.len() as int) == prefix
}

/// The key of an action, written ignoring ASCII case: `ctrl-` or
/// `control-` and a letter for that letter with control, a key name, or a
/// single printable character.
pub open spec fn action_key_event_result(value: Seq<char>) -> Result<KeyEvent, Seq<char>> {
    let normalized = lower_text(value);
    let prefix = if starts_with(normalized, "ctrl-"@) {
        Some("ctrl-"@.len())
    } else if starts_with(normalized, "control-"@) {
        Some("control-"@.len())
    } else {
        None
    };
    match prefix {
        Some(n) => match control_key_result(normalized.subrange(n as int, normalized.len() as int), value) {
            Ok(c) => Ok(KeyEvent { key: Key::Char(c), modifiers: Modifiers(4) }),
            Err(e) => Err(e),
        },
        None => match named_key(normalized) {
            Some(key) => Ok(KeyEvent { key, modifiers: Modifiers(0) }),
            None => match action_key_result(value) {
                Ok(c) => Ok(KeyEvent { key: Key::Char(c), modifiers: Modifiers(0) }),
                Err(e) => Err(e),
            },
        },
    }
}

/// A result with its error text as a sequence.
pub open spec fn text_error<T>(result: Result<T, String>) -> Result<T, Seq<char>> {
    match result {
        Ok(value) => Ok(value),
        Err(message) => Err(message@),
    }
}

/// Read a review action key.
pub fn parse_action_key(value: &str) -> (key: Result<char, String>)
    ensures
        text_error(key) == action_key_result(value@),
{
    let chars = chars_of(value);
    if chars.len() == 0 {
        return Err("review action key cannot be empty".to_owned());
    }
    let key = chars[0];
    if chars.len() > 1 || is_control_char(key) {
        let mut message = String::new();
        push_str(&mut message, "review action key '");
        push_str(&mut message, value);
        push_str(&mut message, "' must be one printable character");
        return Err(message);
    }
    Ok(key)
}

/// Read the letter of a control key written in `written`.
pub fn parse_control_action_key(key: &str, written: &str) -> (letter: Result<char, String>)
    ensures
        text_error(letter) == control_key_result(key@, written@),
{
    let chars = chars_of(key);
    if chars.len() == 0 {
        return Err("control action key cannot be empty".to_owned());
    }
    let letter = chars[0];
    let is_letter = ('a' <= letter && letter <= 'z') || ('A' <= letter && letter <= 'Z');
    if chars.len() > 1 || !is_letter {
        let mut message = String::new();
        push_str(&mut message, "control action key '");
        push_str(&mut message, written);
        push_str(&mut message, "' must use ctrl- plus one letter");
        return Err(message);
    }
    Ok(to_ascii_lower(letter))
}

fn named_key_of(name: &Vec<char>) -> (key: Option<Key>)
    ensures
        key == named_key(name@),
{
    if chars_are(name, "enter") {
        Some(Key::Enter)
    } else if chars_are(name, "esc") || chars_are(name, "escape") {
        Some(Key::Esc)
    } else if chars_are(name, "tab") {
        Some(Key::Tab)
    } else if chars_are(name, "backtab") || chars_are(name, "shift-tab") {
        Some(Key::Backtab)
    } else if chars_are(name, "backspace") {
        Some(Key::Backspace)
    } else if chars_are(name, "delete") || chars_are(name, "del") {
        Some(Key::Delete)
    } else if chars_are(name, "up") {
        Some(Key::Up)
    } else if chars_are(name, "down") {
        Some(Key::Down)
    } else if chars_are(name, "left") {
        Some(Key::Left)
    } else if chars_are(name, "right") {
        Some(Key::Right)
    } else if chars_are(name, "home") {
        Some(Key::Home)
    } else if chars_are(name, "end") {
        Some(Key::End)
    } else if chars_are(name, "page-up") || chars_are(name, "pageup") {
        Some(Key::PageUp)
    } else if chars_are(name, "page-down") || chars_are(name, "pagedown") {
        Some(Key::PageDown)
    } else {
        None
    }
}

/// Read the key of an action.
pub fn parse_action_key_event(value: &str) -> (key: Result<KeyEvent, String>)
    ensures
        text_error(key) == action_key_event_result(value@),
{
    let normalized = lower_chars(value);
    let prefix = match strip_prefix_len(&normalized, "ctrl-") {
        Some(n) => Some(n),
        None => strip_prefix_len(&normalized, "control-"),
    };
    match prefix {
        Some(n) => {
            let rest = string_of_range(&normalized, n, normalized.len());
            let letter = parse_control_action_key(rest.as_str(), value)?;
            Ok(KeyEvent::with_modifiers(Key::Char(letter), Modifiers::CONTROL()))
        },
        None => match named_key_of(&normalized) {
            Some(key) => Ok(KeyEvent::new(key)),
            None => {
                let letter = parse_action_key(value)?;
                Ok(KeyEvent::new(Key::Char(letter)))
            },
        },
    }
}

/// The name `Debug` gives a key.
pub open spec fn key_debug_name(key: Key) -> Seq<char> {
    match key {
        Key::Char(c) => "Char("@ + char_debug_text(c) + ")"@,
        Key::Enter => "Enter"@,
        Key::Esc => "Esc"@,
        Key::Tab => "Tab"@,
        Key::Backtab => "Backtab"@,
        Key::Backspace => "Backspace"@,
        Key::Delete => "Delete"@,
        Key::Up => "Up"@,
        Key::Down => "Down"@,
        Key::Left => "Left"@,
        Key::Right => "Right"@,
        Key::Home => "Home"@,
        Key::End => "End"@,
        Key::PageUp => "PageUp"@,
        Key::PageDown => "PageDown"@,
    }
}

/// How an action key is named in messages: `ctrl-` and the letter, the bare
/// character, or the key's name written small, with the modifier bits
/// after a `+` when there are others.
pub open spec fn key_label(key: KeyEvent) -> Seq<char> {
    match key.key {
        Key::Char(c) => if key.modifiers.0 == 4 {
            "ctrl-"@ + seq![c]
        } else if key.modifiers.0 == 0 {
            seq![c]
        } else {
            lower_text(key_debug_name(key.key) + "+"@ + decimal_chars(key.modifiers.0 as nat))
        },
        _ => if key.modifiers.0 == 0 {
            lower_text(key_debug_name(key.key))
        } else {
            lower_text(key_debug_name(key.key) + "+"@ + decimal_chars(key.modifiers.0 as nat))
        },
    }
}

/// The key names: `enter`, `esc` or `escape`, `tab`, `shift-tab`,
/// `backspace`, `delete`, the arrows `up`, `down`, `left` and `right`,
/// `home`, `end`, `page-up` and `page-down`.
pub proof fn law_named_keys()
    ensures
        named_key("enter"@) == Some(Key::Enter),
        named_key("esc"@) == Some(Key::Esc),
        named_key("escape"@) == Some(Key::Esc),
        named_key("tab"@) == Some(Key::Tab),
        named_key("shift-tab"@) == Some(Key::Backtab),
        named_key("backspace"@) == Some(Key::Backspace),
        named_key("delete"@) == Some(Key::Delete),
        named_key("up"@) == Some(Key::Up),
        named_key("down"@) == Some(Key::Down),
        named_key("left"@) == Some(Key::Left),
        named_key("right"@) == Some(Key::Right),
        named_key("home"@) == Some(Key::Home),
        named_key("end"@) == Some(Key::End),
        named_key("page-up"@) == Some(Key::PageUp),
        named_key("page-down"@) == Some(Key::PageDown),
{
    reveal_strlit("enter");
    reveal_strlit("esc");
    reveal_strlit("escape");
    reveal_strlit("tab");
    reveal_strlit("backtab");
    reveal_strlit("shift-tab");
    reveal_strlit("backspace");
    reveal_strlit("delete");
    reveal_strlit("del");
    reveal_strlit("up");
    reveal_strlit("down");
    reveal_strlit("left");
    reveal_strlit("right");
    reveal_strlit("home");
    reveal_strlit("end");
    reveal_strlit("page-up");
    reveal_strlit("pageup");
    reveal_strlit("page-down");
    reveal_strlit("pagedown");
    assert("esc"@.len() != "enter"@.len());
    assert("esc"@ != "enter"@);
    assert("escape"@.len() != "enter"@.len());
    assert("escape"@ != "enter"@);
    assert("escape"@.len() != "esc"@.len());
    assert("escape"@ != "esc"@);
    assert("tab"@.len() != "enter"@.len());
    assert("tab"@ != "enter"@);
    assert("tab"@[0] != "esc"@[0]);
    assert("tab"@ != "esc"@);
    assert("tab"@.len() != "escape"@.len());
    assert("tab"@ != "escape"@);
    assert("backtab"@.len() != "enter"@.len());
    assert("backtab"@ != "enter"@);
    assert("backtab"@.len() != "esc"@.len());
    assert("backtab"@ != "esc"@);
    assert("backtab"@.len() != "escape"@.len());
    assert("backtab"@ != "escape"@);
    assert("backtab"@.len() != "tab"@.len());
    assert("backtab"@ != "tab"@);
    assert("shift-tab"@.len() != "enter"@.len());
    assert("shift-tab"@ != "enter"@);
    assert("shift-tab"@.len() != "esc"@.len());
    assert("shift-tab"@ != "esc"@);
    assert("shift-tab"@.len() != "escape"@.len());
    assert("shift-tab"@ != "escape"@);
    assert("shift-tab"@.len() != "tab"@.len());
    assert("shift-tab"@ != "tab"@);
    assert("shift-tab"@.len() != "backtab"@.len());
    assert("shift-tab"@ != "backtab"@);
    assert("backspace"@.len() != "enter"@.len());
    assert("backspace"@ != "enter"@);
    assert("backspace"@.len() != "esc"@.len());
    assert("backspace"@ != "esc"@);
    assert("backspace"@.len() != "escape"@.len());
    assert("backspace"@ != "escape"@);
    assert("backspace"@.len() != "tab"@.len());
    assert("backspace"@ != "tab"@);
    assert("backspace"@.len() != "backtab"@.len());
    assert("backspace"@ != "backtab"@);
    assert("backspace"@[0] != "shift-tab"@[0]);
    assert("backspace"@ != "shift-tab"@);
    assert("delete"@.len() != "enter"@.len());
    assert("delete"@ != "enter"@);
    assert("delete"@.len() != "esc"@.len());
    assert("delete"@ != "esc"@);
    assert("delete"@[0] != "escape"@[0]);
    assert("delete"@ != "escape"@);
    assert("delete"@.len() != "tab"@.len());
    assert("delete"@ != "tab"@);
    assert("delete"@.len() != "backtab"@.len());
    assert("delete"@ != "backtab"@);
    assert("delete"@.len() != "shift-tab"@.len());
    assert("delete"@ != "shift-tab"@);
    assert("delete"@.len() != "backspace"@.len());
    assert("delete"@ != "backspace"@);
    assert("del"@.len() != "enter"@.len());
    assert("del"@ != "enter"@);
    assert("del"@[0] != "esc"@[0]);
    assert("del"@ != "esc"@);
    assert("del"@.len() != "escape"@.len());
    assert("del"@ != "escape"@);
    assert("del"@[0] != "tab"@[0]);
    assert("del"@ != "tab"@);
    assert("del"@.len() != "backtab"@.len());
    assert("del"@ != "backtab"@);
    assert("del"@.len() != "shift-tab"@.len());
    assert("del"@ != "shift-tab"@);
    assert("del"@.len() != "backspace"@.len());
    assert("del"@ != "backspace"@);
    assert("del"@.len() != "delete"@.len());
    assert("del"@ != "delete"@);
    assert("up"@.len() != "enter"@.len());
    assert("up"@ != "enter"@);
    assert("up"@.len() != "esc"@.len());
    assert("up"@ != "esc"@);
    assert("up"@.len() != "escape"@.len());
    assert("up"@ != "escape"@);
    assert("up"@.len() != "tab"@.len());
    assert("up"@ != "tab"@);
    assert("up"@.len() != "backtab"@.len());
    assert("up"@ != "backtab"@);
    assert("up"@.len() != "shift-tab"@.len());
    assert("up"@ != "shift-tab"@);
    assert("up"@.len() != "backspace"@.len());
    assert("up"@ != "backspace"@);
    assert("up"@.len() != "delete"@.len());
    assert("up"@ != "delete"@);
    assert("up"@.len() != "del"@.len());
    assert("up"@ != "del"@);
    assert("down"@.len() != "enter"@.len());
    assert("down"@ != "enter"@);
    assert("down"@.len() != "esc"@.len());
    assert("down"@ != "esc"@);
    assert("down"@.len() != "escape"@.len());
    assert("down"@ != "escape"@);
    assert("down"@.len() != "tab"@.len());
    assert("down"@ != "tab"@);
    assert("down"@.len() != "backtab"@.len());
    assert("down"@ != "backtab"@);
    assert("down"@.len() != "shift-tab"@.len());
    assert("down"@ != "shift-tab"@);
    assert("down"@.len() != "backspace"@.len());
    assert("down"@ != "backspace"@);
    assert("down"@.len() != "delete"@.len());
    assert("down"@ != "delete"@);
    assert("down"@.len() != "del"@.len());
    assert("down"@ != "del"@);
    assert("down"@.len() != "up"@.len());
    assert("down"@ != "up"@);
    assert("left"@.len() != "enter"@.len());
    assert("left"@ != "enter"@);
    assert("left"@.len() != "esc"@.len());
    assert("left"@ != "esc"@);
    assert("left"@.len() != "escape"@.len());
    assert("left"@ != "escape"@);
    assert("left"@.len() != "tab"@.len());
    assert("left"@ != "tab"@);
    assert("left"@.len() != "backtab"@.len());
    assert("left"@ != "backtab"@);
    assert("left"@.len() != "shift-tab"@.len());
    assert("left"@ != "shift-tab"@);
    assert("left"@.len() != "backspace"@.len());
    assert("left"@ != "backspace"@);
    assert("left"@.len() != "delete"@.len());
    assert("left"@ != "delete"@);
    assert("left"@.len() != "del"@.len());
    assert("left"@ != "del"@);
    assert("left"@.len() != "up"@.len());
    assert("left"@ != "up"@);
    assert("left"@[0] != "down"@[0]);
    assert("left"@ != "down"@);
    assert("right"@[0] != "enter"@[0]);
    assert("right"@ != "enter"@);
    assert("right"@.len() != "esc"@.len());
    assert("right"@ != "esc"@);
    assert("right"@.len() != "escape"@.len());
    assert("right"@ != "escape"@);
    assert("right"@.len() != "tab"@.len());
    assert("right"@ != "tab"@);
    assert("right"@.len() != "backtab"@.len());
    assert("right"@ != "backtab"@);
    assert("right"@.len() != "shift-tab"@.len());
    assert("right"@ != "shift-tab"@);
    assert("right"@.len() != "backspace"@.len());
    assert("right"@ != "backspace"@);
    assert("right"@.len() != "delete"@.len());
    assert("right"@ != "delete"@);
    assert("right"@.len() != "del"@.len());
    assert("right"@ != "del"@);
    assert("right"@.len() != "up"@.len());
    assert("right"@ != "up"@);
    assert("right"@.len() != "down"@.len());
    assert("right"@ != "down"@);
    assert("right"@.len() != "left"@.len());
    assert("right"@ != "left"@);
    assert("home"@.len() != "enter"@.len());
    assert("home"@ != "enter"@);
    assert("home"@.len() != "esc"@.len());
    assert("home"@ != "esc"@);
    assert("home"@.len() != "escape"@.len());
    assert("home"@ != "escape"@);
    assert("home"@.len() != "tab"@.len());
    assert("home"@ != "tab"@);
    assert("home"@.len() != "backtab"@.len());
    assert("home"@ != "backtab"@);
    assert("home"@.len() != "shift-tab"@.len());
    assert("home"@ != "shift-tab"@);
    assert("home"@.len() != "backspace"@.len());
    assert("home"@ != "backspace"@);
    assert("home"@.len() != "delete"@.len());
    assert("home"@ != "delete"@);
    assert("home"@.len() != "del"@.len());
    assert("home"@ != "del"@);
    assert("home"@.len() != "up"@.len());
    assert("home"@ != "up"@);
    assert("home"@[0] != "down"@[0]);
    assert("home"@ != "down"@);
    assert("home"@[0] != "left"@[0]);
    assert("home"@ != "left"@);
    assert("home"@.len() != "right"@.len());
    assert("home"@ != "right"@);
    assert("end"@.len() != "enter"@.len());
    assert("end"@ != "enter"@);
    assert("end"@[1] != "esc"@[1]);
    assert("end"@ != "esc"@);
    assert("end"@.len() != "escape"@.len());
    assert("end"@ != "escape"@);
    assert("end"@[0] != "tab"@[0]);
    assert("end"@ != "tab"@);
    assert("end"@.len() != "backtab"@.len());
    assert("end"@ != "backtab"@);
    assert("end"@.len() != "shift-tab"@.len());
    assert("end"@ != "shift-tab"@);
    assert("end"@.len() != "backspace"@.len());
    assert("end"@ != "backspace"@);
    assert("end"@.len() != "delete"@.len());
    assert("end"@ != "delete"@);
    assert("end"@[0] != "del"@[0]);
    assert("end"@ != "del"@);
    assert("end"@.len() != "up"@.len());
    assert("end"@ != "up"@);
    assert("end"@.len() != "down"@.len());
    assert("end"@ != "down"@);
    assert("end"@.len() != "left"@.len());
    assert("end"@ != "left"@);
    assert("end"@.len() != "right"@.len());
    assert("end"@ != "right"@);
    assert("end"@.len() != "home"@.len());
    assert("end"@ != "home"@);
    assert("page-up"@.len() != "enter"@.len());
    assert("page-up"@ != "enter"@);
    assert("page-up"@.len() != "esc"@.len());
    assert("page-up"@ != "esc"@);
    assert("page-up"@.len() != "escape"@.len());
    assert("page-up"@ != "escape"@);
    assert("page-up"@.len() != "tab"@.len());
    assert("page-up"@ != "tab"@);
    assert("page-up"@[0] != "backtab"@[0]);
    assert("page-up"@ != "backtab"@);
    assert("page-up"@.len() != "shift-tab"@.len());
    assert("page-up"@ != "shift-tab"@);
    assert("page-up"@.len() != "backspace"@.len());
    assert("page-up"@ != "backspace"@);
    assert("page-up"@.len() != "delete"@.len());
    assert("page-up"@ != "delete"@);
    assert("page-up"@.len() != "del"@.len());
    assert("page-up"@ != "del"@);
    assert("page-up"@.len() != "up"@.len());
    assert("page-up"@ != "up"@);
    assert("page-up"@.len() != "down"@.len());
    assert("page-up"@ != "down"@);
    assert("page-up"@.len() != "left"@.len());
    assert("page-up"@ != "left"@);
    assert("page-up"@.len() != "right"@.len());
    assert("page-up"@ != "right"@);
    assert("page-up"@.len() != "home"@.len());
    assert("page-up"@ != "home"@);
    assert("page-up"@.len() != "end"@.len());
    assert("page-up"@ != "end"@);
    assert("pageup"@.len() != "enter"@.len());
    assert("pageup"@ != "enter"@);
    assert("pageup"@.len() != "esc"@.len());
    assert("pageup"@ != "esc"@);
    assert("pageup"@[0] != "escape"@[0]);
    assert("pageup"@ != "escape"@);
    assert("pageup"@.len() != "tab"@.len());
    assert("pageup"@ != "tab"@);
    assert("pageup"@.len() != "backtab"@.len());
    assert("pageup"@ != "backtab"@);
    assert("pageup"@.len() != "shift-tab"@.len());
    assert("pageup"@ != "shift-tab"@);
    assert("pageup"@.len() != "backspace"@.len());
    assert("pageup"@ != "backspace"@);
    assert("pageup"@[0] != "delete"@[0]);
    assert("pageup"@ != "delete"@);
    assert("pageup"@.len() != "del"@.len());
    assert("pageup"@ != "del"@);
    assert("pageup"@.len() != "up"@.len());
    assert("pageup"@ != "up"@);
    assert("pageup"@.len() != "down"@.len());
    assert("pageup"@ != "down"@);
    assert("pageup"@.len() != "left"@.len());
    assert("pageup"@ != "left"@);
    assert("pageup"@.len() != "right"@.len());
    assert("pageup"@ != "right"@);
    assert("pageup"@.len() != "home"@.len());
    assert("pageup"@ != "home"@);
    assert("pageup"@.len() != "end"@.len());
    assert("pageup"@ != "end"@);
    assert("pageup"@.len() != "page-up"@.len());
    assert("pageup"@ != "page-up"@);
    assert("page-down"@.len() != "enter"@.len());
    assert("page-down"@ != "enter"@);
    assert("page-down"@.len() != "esc"@.len());
    assert("page-down"@ != "esc"@);
    assert("page-down"@.len() != "escape"@.len());
    assert("page-down"@ != "escape"@);
    assert("page-down"@.len() != "tab"@.len());
    assert("page-down"@ != "tab"@);
    assert("page-down"@.len() != "backtab"@.len());
    assert("page-down"@ != "backtab"@);
    assert("page-down"@[0] != "shift-tab"@[0]);
    assert("page-down"@ != "shift-tab"@);
    assert("page-down"@[0] != "backspace"@[0]);
    assert("page-down"@ != "backspace"@);
    assert("page-down"@.len() != "delete"@.len());
    assert("page-down"@ != "delete"@);
    assert("page-down"@.len() != "del"@.len());
    assert("page-down"@ != "del"@);
    assert("page-down"@.len() != "up"@.len());
    assert("page-down"@ != "up"@);
    assert("page-down"@.len() != "down"@.len());
    assert("page-down"@ != "down"@);
    assert("page-down"@.len() != "left"@.len());
    assert("page-down"@ != "left"@);
    assert("page-down"@.len() != "right"@.len());
    assert("page-down"@ != "right"@);
    assert("page-down"@.len() != "home"@.len());
    assert("page-down"@ != "home"@);
    assert("page-down"@.len() != "end"@.len());
    assert("page-down"@ != "end"@);
    assert("page-down"@.len() != "page-up"@.len());
    assert("page-down"@ != "page-up"@);
    assert("page-down"@.len() != "pageup"@.len());
    assert("page-down"@ != "pageup"@);
    assert("pagedown"@.len() != "enter"@.len());
    assert("pagedown"@ != "enter"@);
    assert("pagedown"@.len() != "esc"@.len());
    assert("pagedown"@ != "esc"@);
    assert("pagedown"@.len() != "escape"@.len());
    assert("pagedown"@ != "escape"@);
    assert("pagedown"@.len() != "tab"@.len());
    assert("pagedown"@ != "tab"@);
    assert("pagedown"@.len() != "backtab"@.len());
    assert("pagedown"@ != "backtab"@);
    assert("pagedown"@.len() != "shift-tab"@.len());
    assert("pagedown"@ != "shift-tab"@);
    assert("pagedown"@.len() != "backspace"@.len());
    assert("pagedown"@ != "backspace"@);
    assert("pagedown"@.len() != "delete"@.len());
    assert("pagedown"@ != "delete"@);
    assert("pagedown"@.len() != "del"@.len());
    assert("pagedown"@ != "del"@);
    assert("pagedown"@.len() != "up"@.len());
    assert("pagedown"@ != "up"@);
    assert("pagedown"@.len() != "down"@.len());
    assert("pagedown"@ != "down"@);
    assert("pagedown"@.len() != "left"@.len());
    assert("pagedown"@ != "left"@);
    assert("pagedown"@.len() != "right"@.len());
    assert("pagedown"@ != "right"@);
    assert("pagedown"@.len() != "home"@.len());
    assert("pagedown"@ != "home"@);
    assert("pagedown"@.len() != "end"@.len());
    assert("pagedown"@ != "end"@);
    assert("pagedown"@.len() != "page-up"@.len());
    assert("pagedown"@ != "page-up"@);
    assert("pagedown"@.len() != "pageup"@.len());
    assert("pagedown"@ != "pageup"@);
    assert("pagedown"@.len() != "page-down"@.len());
    assert("pagedown"@ != "page-down"@);
}

/// Action keys: `ctrl-` or `control-` and an ASCII letter, in any case, is
/// that letter made small with Control held; the key names read as their
/// keys (as [`law_named_keys`] lists them), whatever their case; a single other printable character is that
/// character alone.
pub proof fn law_action_key_names(letter: char, c: char)
    requires
        is_ascii_letter(letter),
    ensures
        action_key_event_result("ctrl-"@ + seq![letter]) == Ok::<KeyEvent, Seq<char>>(
            KeyEvent { key: Key::Char(ascii_lower(letter)), modifiers: Modifiers(4) },
        ),
        action_key_event_result("CONTROL-"@ + seq![letter]) == Ok::<KeyEvent, Seq<char>>(
            KeyEvent { key: Key::Char(ascii_lower(letter)), modifiers: Modifiers(4) },
        ),
        action_key_event_result("Up"@) == Ok::<KeyEvent, Seq<char>>(KeyEvent { key: Key::Up, modifiers: Modifiers(0) }),
        !is_control_code(c) && !is_ascii_letter(c) && c != '-' ==> action_key_event_result(seq![c]) == Ok::<
            KeyEvent,
            Seq<char>,
        >(KeyEvent { key: Key::Char(c), modifiers: Modifiers(0) }),
{
    reveal_strlit("ctrl-");
    reveal_strlit("control-");
    reveal_strlit("CONTROL-");
    reveal_strlit("Up");
    reveal_strlit("up");
    reveal_strlit("enter");
    reveal_strlit("esc");
    reveal_strlit("escape");
    reveal_strlit("tab");
    reveal_strlit("backtab");
    reveal_strlit("shift-tab");
    reveal_strlit("backspace");
    reveal_strlit("delete");
    reveal_strlit("del");
    reveal_strlit("down");
    reveal_strlit("left");
    reveal_strlit("right");
    reveal_strlit("home");
    reveal_strlit("end");
    reveal_strlit("page-up");
    reveal_strlit("pageup");
    reveal_strlit("page-down");
    reveal_strlit("pagedown");
    assert("esc"@[1] != "enter"@[1] && "escape"@[1] != "enter"@[1]);
    assert("tab"@[0] != "esc"@[0]);
    assert("backspace"@[0] != "shift-tab"@[0]);
    assert("delete"@[0] != "escape"@[0]);
    assert("del"@[0] != "esc"@[0]);
    assert("del"@[0] != "tab"@[0]);
    assert("left"@[0] != "down"@[0]);
    assert("right"@[0] != "enter"@[0]);
    assert("home"@[0] != "down"@[0]);
    assert("home"@[0] != "left"@[0]);
    assert("end"@[1] != "esc"@[1]);
    assert("end"@[0] != "tab"@[0]);
    assert("end"@[0] != "del"@[0]);
    assert("page-up"@[0] != "backtab"@[0]);
    assert("pageup"@[0] != "escape"@[0]);
    assert("pageup"@[0] != "delete"@[0]);
    assert("page-down"@[0] != "shift-tab"@[0]);
    assert("page-down"@[0] != "backspace"@[0]);
    let short = "ctrl-"@ + seq![letter];
    assert(lower_text(short).subrange(0, 5) =~= "ctrl-"@);
    assert(lower_text(short).subrange(5, 6) =~= seq![ascii_lower(letter)]);
    assert(is_ascii_letter(ascii_lower(letter)));
    let long = "CONTROL-"@ + seq![letter];
    assert(lower_text(long).subrange(0, 8) =~= "control-"@);
    assert(lower_text(long)[0] != "ctrl-"@[1] || lower_text(long)[1] != "ctrl-"@[1]);
    assert(lower_text(long).subrange(0, 5) != "ctrl-"@) by {
        assert(lower_text(long).subrange(0, 5)[1] == 'o');
    }
    assert(lower_text(long).subrange(8, 9) =~= seq![ascii_lower(letter)]);
    assert(lower_text("Up"@) =~= "up"@);
    assert("up"@[0] != "enter"@[0] && "up"@[0] != "esc"@[0] && "up"@[0] != "escape"@[0] && "up"@[0] != "tab"@[0]);
    assert("up"@[0] != "backtab"@[0] && "up"@[0] != "shift-tab"@[0] && "up"@[0] != "backspace"@[0] && "up"@[0] != "delete"@[0] && "up"@[0] != "del"@[0]);
    let single = seq![c];
    if !is_control_code(c) && !is_ascii_letter(c) && c != '-' {
        assert(lower_text(single) =~= single);
        assert(!starts_with(single, "ctrl-"@));
        assert(!starts_with(single, "control-"@));
        assert(named_key(single) is None);
    }
}

/// Binding text splits at its first colon: a key written without a colon,
/// a colon and a name bind that key to that whole name, colons in the name
/// kept.
pub proof fn law_binding_splits_at_first_colon(key: Seq<char>, name: Seq<char>)
    requires
        forall|i: int| 0 <= i < key.len() ==> key[i] != ':',
    ensures
        colon_split(key + seq![':'] + name) == Some((key, name)),
{
    let text = key + seq![':'] + name;
    lemma_first_colon(text, key.len() as int, 0);
    assert(text.subrange(0, key.len() as int) =~= key);
    assert(text.subrange(key.len() as int + 1, text.len() as int) =~= name);
}

proof fn lemma_first_colon(text: Seq<char>, at: int, from: int)
    requires
        0 <= from <= at < text.len(),
        text[at] == ':',
        forall|i: int| from <= i < at ==> text[i] != ':',
    ensures
        crate::text::first_occurrence_from(text, seq![':'], from) == Some(at),
    decreases at - from,
{
    assert(text.subrange(at, at + 1) =~= seq![':']);
    if from < at {
        assert(text.subrange(from, from + 1)[0] != ':');
        assert(text.subrange(from, from + 1) != seq![':']);
        lemma_first_colon(text, at, from + 1);
    }
}

/// A control letter named in messages reads back as the same key: the
/// label `ctrl-` and a small letter is read as that letter with control.
pub proof fn law_control_key_label_reads_back(c: char)
    requires
        'a' <= c <= 'z',
    ensures
        action_key_event_result(key_label(KeyEvent { key: Key::Char(c), modifiers: Modifiers(4) })) == Ok::<
            KeyEvent,
            Seq<char>,
        >(KeyEvent { key: Key::Char(c), modifiers: Modifiers(4) }),
{
    reveal_strlit("ctrl-");
    let label = key_label(KeyEvent { key: Key::Char(c), modifiers: Modifiers(4) });
    assert(label =~= seq!['c', 't', 'r', 'l', '-', c]);
    assert(lower_text(label) =~= label);
    assert(lower_text(label).subrange(0, 5) =~= "ctrl-"@);
    assert(starts_with(lower_text(label), "ctrl-"@));
    assert(lower_text(label).subrange(5, 6) =~= seq![c]);
}

/// A named key in messages reads back as the same key: the name written
/// small is read as that key.
pub proof fn law_named_key_label_reads_back(key: Key)
    requires
        !(key is Char),
    ensures
        action_key_event_result(key_label(KeyEvent { key, modifiers: Modifiers(0) })) == Ok::<KeyEvent, Seq<char>>(
            KeyEvent { key, modifiers: Modifiers(0) },
        ),
{
    reveal_strlit("ctrl-");
    reveal_strlit("control-");
    reveal_strlit("Enter");
    reveal_strlit("Esc");
    reveal_strlit("Tab");
    reveal_strlit("Backtab");
    reveal_strlit("Backspace");
    reveal_strlit("Delete");
    reveal_strlit("Up");
    reveal_strlit("Down");
    reveal_strlit("Left");
    reveal_strlit("Right");
    reveal_strlit("Home");
    reveal_strlit("End");
    reveal_strlit("PageUp");
    reveal_strlit("PageDown");
    reveal_strlit("enter");
    reveal_strlit("esc");
    reveal_strlit("escape");
    reveal_strlit("tab");
    reveal_strlit("backtab");
    reveal_strlit("shift-tab");
    reveal_strlit("backspace");
    reveal_strlit("delete");
    reveal_strlit("del");
    reveal_strlit("up");
    reveal_strlit("down");
    reveal_strlit("left");
    reveal_strlit("right");
    reveal_strlit("home");
    reveal_strlit("end");
    reveal_strlit("page-up");
    reveal_strlit("pageup");
    reveal_strlit("page-down");
    reveal_strlit("pagedown");
    let label = key_label(KeyEvent { key, modifiers: Modifiers(0) });
    let name: Seq<char> = match key {
        Key::Enter => "enter"@,
        Key::Esc => "esc"@,
        Key::Tab => "tab"@,
        Key::Backtab => "backtab"@,
        Key::Backspace => "backspace"@,
        Key::Delete => "delete"@,
        Key::Up => "up"@,
        Key::Down => "down"@,
        Key::Left => "left"@,
        Key::Right => "right"@,
        Key::Home => "home"@,
        Key::End => "end"@,
        Key::PageUp => "pageup"@,
        Key::PageDown => "pagedown"@,
        Key::Char(_) => Seq::empty(),
    };
    assert(label =~= name);
    assert(lower_text(label) =~= name);
    assert(name.len() < 5 || name[0] != 'c');
    assert(name.len() < 5 || name.subrange(0, 5)[0] != "ctrl-"@[0]);
    assert(name.len() < 8 || name.subrange(0, 8)[0] != "control-"@[0]);
    assert(!starts_with(name, "ctrl-"@));
    assert(!starts_with(name, "control-"@));
    match key {
        Key::Enter => {},
        Key::Esc => {},
        Key::Tab => {
            assert(name[0] != "esc"@[0]);
        },
        Key::Backtab => {},
        Key::Backspace => {
            assert(name[0] != "shift-tab"@[0]);
        },
        Key::Delete => {
            assert(name[0] != "escape"@[0]);
        },
        Key::Up => {},
        Key::Down => {},
        Key::Left => {
            assert(name[0] != "down"@[0]);
        },
        Key::Right => {
            assert(name[0] != "enter"@[0]);
        },
        Key::Home => {
            assert(name[0] != "down"@[0]);
            assert(name[0] != "left"@[0]);
        },
        Key::End => {
            assert(name[1] != "esc"@[1]);
            assert(name[0] != "tab"@[0]);
            assert(name[0] != "del"@[0]);
        },
        Key::PageUp => {
            assert(name[0] != "escape"@[0]);
            assert(name[0] != "delete"@[0]);
        },
        Key::PageDown => {},
        Key::Char(_) => {},
    }
    assert(named_key(name) == Some(key));
}

fn key_debug(key: Key) -> (name: String)
    ensures
        name@ == key_debug_name(key),
{
    match key {
        Key::Char(c) => {
            let mut name = String::new();
            push_str(&mut name, "Char(");
            let quoted = char_debug(c);
            push_str(&mut name, quoted.as_str());
            push_str(&mut name, ")");
            name
        },
        Key::Enter => "Enter".to_owned(),
        Key::Esc => "Esc".to_owned(),
        Key::Tab => "Tab".to_owned(),
        Key::Backtab => "Backtab".to_owned(),
        Key::Backspace => "Backspace".to_owned(),
        Key::Delete => "Delete".to_owned(),
        Key::Up => "Up".to_owned(),
        Key::Down => "Down".to_owned(),
        Key::Left => "Left".to_owned(),
        Key::Right => "Right".to_owned(),
        Key::Home => "Home".to_owned(),
        Key::End => "End".to_owned(),
        Key::PageUp => "PageUp".to_owned(),
        Key::PageDown => "PageDown".to_owned(),
    }
}

/// Name an action key for a message.
pub fn format_action_key_event(key: &KeyEvent) -> (label: String)
    ensures
        label@ == key_label(*key),
{
    let bits = key.modifiers.bits();
    match key.key {
        Key::Char(c) => {
            if bits == 4 {
                let mut label = String::new();
                push_str(&mut label, "ctrl-");
                push_char(&mut label, c);
                return label;
            }
            if bits == 0 {
                let mut label = String::new();
                push_char(&mut label, c);
                return label;
            }
        },
        _ => {},
    }
    let mut text = key_debug(key.key);
    if bits != 0 {
        push_str(&mut text, "+");
        push_decimal(&mut text, bits as u64);
    }
    string_of(&lower_chars(text.as_str()))
}

/// Keys the review list keeps for its own controls.
pub open spec fn reserved_action_key(key: char) -> bool {
    key == ' ' || key == '\t' || key == 'a' || key == 'A' || key == 'c' || key == 'C' || key == 'g' || key == 'G'
        || key == 'j' || key == 'J' || key == 'k' || key == 'K' || key == 'n' || key == 'N' || key == 'r' || key
        == 'R' || key == 's' || key == 'S' || key == 'u' || key == 'U' || key == 'x' || key == 'X' || key == 'y'
        || key == 'Y'
}

pub fn is_reserved_action_key(key: char) -> (reserved: bool)
    ensures
        reserved == reserved_action_key(key),
{
    key == ' ' || key == '\t' || key == 'a' || key == 'A' || key == 'c' || key == 'C' || key == 'g' || key == 'G'
        || key == 'j' || key == 'J' || key == 'k' || key == 'K' || key == 'n' || key == 'N' || key == 'r' || key
        == 'R' || key == 's' || key == 'S' || key == 'u' || key == 'U' || key == 'x' || key == 'X' || key == 'y'
        || key == 'Y'
}

/// `value` split at its first `:`.
pub open spec fn colon_split(value: Seq<char>) -> Option<(Seq<char>, Seq<char>)> {
    match first_occurrence(value, seq![':']) {
        Some(at) => Some((value.subrange(0, at), value.subrange(at + 1, value.len() as int))),
        None => None,
    }
}

fn split_at_colon(value: &str) -> (parts: Option<(String, String)>)
    ensures
        match colon_split(value@) {
            Some((key, name)) => parts matches Some((k, n)) && k@ == key && n@ == name,
            None => parts is None,
        },
{
    let chars = chars_of(value);
    let mut colon: Vec<char> = Vec::new();
    colon.push(':');
    match crate::text::find_chars(&chars, &colon) {
        Some(at) => {
            let count = chars.len();
            assert(at + 1 <= count);
            let key = string_of_range(&chars, 0, at);
            let name = string_of_range(&chars, at + 1, count);
            Some((key, name))
        },
        None => None,
    }
}

/// What `key:name` binds: the key, an error for a missing colon, a bad key
/// or an empty name.
pub open spec fn action_binding_result(value: Seq<char>) -> Result<(KeyEvent, Seq<char>), Seq<char>> {
    match colon_split(value) {
        None => Err("action must use key:name syntax"@),
        Some((key, name)) => match action_key_event_result(key) {
            Err(e) => Err(e),
            Ok(k) => if name.len() == 0 {
                Err("action name cannot be empty"@)
            } else {
                Ok((k, name))
            },
        },
    }
}

/// Read an action binding written `key:name`.
pub fn parse_action_binding(value: &str) -> (binding: Result<ActionBinding, String>)
    ensures
        match action_binding_result(value@) {
            Ok((key, name)) => binding matches Ok(b) && b.bound_key() == key && b.action_name() == name
                && b.help_text() == name,
            Err(e) => binding matches Err(m) && m@ == e,
        },
{
    let (key, name) = match split_at_colon(value) {
        Some(parts) => parts,
        None => return Err("action must use key:name syntax".to_owned()),
    };
    let key = parse_action_key_event(key.as_str())?;
    if name.unicode_len() == 0 {
        return Err("action name cannot be empty".to_owned());
    }
    Ok(ActionBinding::new(key, name))
}

/// What a review `key:name` binds: the key, an error for a missing colon, a
/// bad or reserved key or an empty name.
pub open spec fn review_binding_result(value: Seq<char>) -> Result<(char, Seq<char>), Seq<char>> {
    match colon_split(value) {
        None => Err("review action must use key:name syntax"@),
        Some((key, name)) => match action_key_result(key) {
            Err(e) => Err(e),
            Ok(k) => if reserved_action_key(k) {
                Err(reserved_message(k))
            } else if name.len() == 0 {
                Err("review action name cannot be empty"@)
            } else {
                Ok((k, name))
            },
        },
    }
}

pub open spec fn reserved_message(key: char) -> Seq<char> {
    "review action key '"@ + seq![key] + "' is reserved by built-in review controls"@
}

fn reserved_key_message(key: char) -> (message: String)
    ensures
        message@ == reserved_message(key),
{
    let mut message = String::new();
    push_str(&mut message, "review action key '");
    push_char(&mut message, key);
    push_str(&mut message, "' is reserved by built-in review controls");
    message
}

/// Read a review action binding written `key:name`.
pub fn parse_review_action_binding(value: &str) -> (binding: Result<ReviewActionBinding, String>)
    ensures
        match review_binding_result(value@) {
            Ok((key, name)) => binding matches Ok(b) && b.bound_key() == key && b.action_name() == name
                && b.help_text() == name,
            Err(e) => binding matches Err(m) && m@ == e,
        },
{
    let (key, name) = match split_at_colon(value) {
        Some(parts) => parts,
        None => return Err("review action must use key:name syntax".to_owned()),
    };
    let key = parse_action_key(key.as_str())?;
    if is_reserved_action_key(key) {
        return Err(reserved_key_message(key));
    }
    if name.unicode_len() == 0 {
        return Err("review action name cannot be empty".to_owned());
    }
    Ok(ReviewActionBinding::new(key, name))
}

// ---------------------------------------------------------------------------
// Raw configurations, as a configuration file is read.

/// An action binding as written: a key, a name and an optional help text.
#[derive(Debug)]
pub struct RawAction {
    pub key: String,
    pub name: String,
    pub help: Option<String>,
}

/// An option with a label, and optionally a value, a mark and a review
/// state.
#[derive(Debug)]
pub struct DetailedOption {
    pub label: String,
    pub value: Option<Value>,
    pub selected: bool,
    pub state: Option<String>,
}

/// An option written as a bare label or in detail.
#[derive(Debug)]
pub enum OptionEntry {
    Label(String),
    Detailed(DetailedOption),
}

/// A field of a form as written.
#[derive(Debug)]
pub struct RawFieldConfig {
    pub name: String,
    pub kind: RawWidgetKind,
    pub page_size: Option<usize>,
    pub prompt: Option<String>,
    pub placeholder: Option<String>,
    pub value: Option<String>,
    pub selected_date: Option<String>,
    pub today: Option<String>,
    pub wrap: Option<bool>,
    pub show_removed: Option<bool>,
    pub action_output: Option<bool>,
    pub actions: Vec<RawAction>,
    pub options: Vec<OptionEntry>,
}

/// A widget configuration as written.
#[derive(Debug)]
pub struct RawConfig {
    pub kind: RawWidgetKind,
    pub input_bytes: Option<String>,
    pub page_size: Option<usize>,
    pub prompt: Option<String>,
    pub placeholder: Option<String>,
    pub value: Option<String>,
    pub selected_date: Option<String>,
    pub today: Option<String>,
    pub wrap: Option<bool>,
    pub show_removed: Option<bool>,
    pub action_output: Option<bool>,
    pub actions: Vec<RawAction>,
    pub options: Vec<OptionEntry>,
    pub fields: Vec<RawFieldConfig>,
}

// ---------------------------------------------------------------------------
// Options.

/// A checked option: its item, whether it starts checked, its review state.
#[derive(Debug)]
pub struct FinishedOption {
    pub item: SelectItem,
    pub selected: bool,
    pub review_state: ReviewState,
}

/// The checked options: the items, the indices of those that start
/// checked, and the review states.
#[derive(Debug)]
pub struct FinishedOptions {
    pub items: Vec<SelectItem>,
    pub selected_indices: Vec<usize>,
    pub review_states: Vec<ReviewState>,
}

pub open spec fn option_label(option: OptionEntry) -> Seq<char> {
    match option {
        OptionEntry::Label(label) => label@,
        OptionEntry::Detailed(detail) => detail.label@,
    }
}

/// The value an option submits: its own, else its label.
pub open spec fn option_value(option: OptionEntry) -> ValueModel {
    match option {
        OptionEntry::Label(label) => ValueModel::Text(label@),
        OptionEntry::Detailed(detail) => match detail.value {
            Some(value) => value@,
            None => ValueModel::Text(detail.label@),
        },
    }
}

pub open spec fn option_selected(option: OptionEntry) -> bool {
    match option {
        OptionEntry::Label(_) => false,
        OptionEntry::Detailed(detail) => detail.selected,
    }
}

/// The review state an option starts in: the one it names, else
/// unconfirmed.
pub open spec fn option_state(option: OptionEntry) -> ReviewState {
    match option {
        OptionEntry::Detailed(detail) => match detail.state {
            Some(name) => match state_named(name@) {
                Some(state) => state,
                None => ReviewState::Unconfirmed,
            },
            None => ReviewState::Unconfirmed,
        },
        _ => ReviewState::Unconfirmed,
    }
}

/// An option's error: a state name that is no review state.
pub open spec fn option_problem(option: OptionEntry) -> Option<Seq<char>> {
    match option {
        OptionEntry::Detailed(detail) => match detail.state {
            Some(name) => if state_named(name@) is None {
                Some(invalid_state_message(name@))
            } else {
                None
            },
            None => None,
        },
        _ => None,
    }
}

/// The first of the first `n` problems.
pub open spec fn first_problem(problems: Seq<Option<Seq<char>>>, n: int) -> Option<Seq<char>>
    decreases n,
{
    if n <= 0 {
        None
    } else {
        match first_problem(problems, n - 1) {
            Some(message) => Some(message),
            None => problems[n - 1],
        }
    }
}

/// A found problem stays the first problem of every longer run.
pub proof fn lemma_first_problem_stays(problems: Seq<Option<Seq<char>>>, m: int, n: int)
    requires
        m <= n,
        first_problem(problems, m) is Some,
    ensures
        first_problem(problems, n) == first_problem(problems, m),
    decreases n - m,
{
    if m < n {
        lemma_first_problem_stays(problems, m, n - 1);
    }
}

pub open spec fn options_problems(options: Seq<OptionEntry>) -> Seq<Option<Seq<char>>> {
    Seq::new(options.len(), |i: int| option_problem(options[i]))
}

/// The indices of the first `n` options that start checked.
pub open spec fn selected_prefix(options: Seq<OptionEntry>, n: int) -> Seq<usize>
    decreases n,
{
    if n <= 0 {
        Seq::empty()
    } else if option_selected(options[n - 1]) {
        selected_prefix(options, n - 1).push((n - 1) as usize)
    } else {
        selected_prefix(options, n - 1)
    }
}

/// Items, checked indices and review states hold what the raw options say.
pub open spec fn options_hold(
    options: Seq<OptionEntry>,
    items: Seq<SelectItem>,
    selected: Seq<usize>,
    states: Seq<ReviewState>,
) -> bool {
    &&& items.len() == options.len()
    &&& states.len() == options.len()
    &&& forall|i: int| 0 <= i < options.len() ==> (#[trigger] items[i]).label@ == option_label(options[i])
        && items[i].value@ == option_value(options[i]) && states[i] == option_state(options[i])
    &&& selected == selected_prefix(options, options.len() as int)
}

/// The checked options hold what the raw ones say.
pub open spec fn finished_options(options: Seq<OptionEntry>, done: FinishedOptions) -> bool {
    options_hold(options, done.items@, done.selected_indices@, done.review_states@)
}

impl OptionEntry {
    /// Check an option.
    pub fn finish(self) -> (done: Result<FinishedOption, String>)
        ensures
            match option_problem(self) {
                Some(message) => done matches Err(m) && m@ == message,
                None => done matches Ok(o) && o.item.label@ == option_label(self) && o.item.value@ == option_value(
                    self,
                ) && o.selected == option_selected(self) && o.review_state == option_state(self),
            },
    {
        match self {
            OptionEntry::Label(label) => {
                let value = Value::String(label.clone());
                Ok(FinishedOption {
                    item: SelectItem::new(label, value),
                    selected: false,
                    review_state: ReviewState::Unconfirmed,
                })
            },
            OptionEntry::Detailed(option) => option.finish(),
        }
    }
}

impl DetailedOption {
    /// Check a detailed option: its state must name a review state.
    pub fn finish(self) -> (done: Result<FinishedOption, String>)
        ensures
            match option_problem(OptionEntry::Detailed(self)) {
                Some(message) => done matches Err(m) && m@ == message,
                None => done matches Ok(o) && o.item.label@ == self.label@ && o.item.value@ == option_value(
                    OptionEntry::Detailed(self),
                ) && o.selected == self.selected && o.review_state == option_state(OptionEntry::Detailed(self)),
            },
    {
        let review_state = match &self.state {
            Some(name) => ReviewState::from_name(name.as_str())?,
            None => ReviewState::Unconfirmed,
        };
        let value = match self.value {
            Some(value) => value,
            None => Value::String(self.label.clone()),
        };
        Ok(FinishedOption { item: SelectItem::new(self.label, value), selected: self.selected, review_state })
    }
}

/// Check every option; the first problem is the error.
#[verifier::loop_isolation(false)]
pub fn finish_options(options: Vec<OptionEntry>) -> (done: Result<FinishedOptions, String>)
    ensures
        match first_problem(options_problems(options@), options@.len() as int) {
            Some(message) => done matches Err(m) && m@ == message,
            None => done matches Ok(finished) && finished_options(options@, finished),
        },
{
    let ghost all = options@;
    let ghost problems = options_problems(options@);
    let mut selected_indices: Vec<usize> = Vec::new();
    let mut items: Vec<SelectItem> = Vec::new();
    let mut review_states: Vec<ReviewState> = Vec::new();
    let mut rest = options;
    let total: usize = rest.len();
    let mut index: usize = 0;
    while rest.len() > 0
        invariant
            index + rest@.len() == all.len(),
            problems == options_problems(all),
            index <= all.len(),
            all.len() == total,
            rest@ == all.subrange(index as int, all.len() as int),
            first_problem(problems, index as int) is None,
            items@.len() == index,
            review_states@.len() == index,
            forall|i: int| 0 <= i < index ==> (#[trigger] items@[i]).label@ == option_label(all[i]) && items@[i].value@
                == option_value(all[i]) && review_states@[i] == option_state(all[i]),
            selected_indices@ == selected_prefix(all, index as int),
        decreases rest@.len(),
    {
        let option = rest.remove(0);
        assert(option == all[index as int]);
        let finished = match option.finish() {
            Ok(finished) => finished,
            Err(message) => {
                proof {
                    assert(first_problem(problems, index + 1) == Some(message@));
                    lemma_first_problem_stays(problems, index + 1, all.len() as int);
                }
                return Err(message);
            },
        };
        if finished.selected {
            selected_indices.push(index);
        }
        review_states.push(finished.review_state);
        items.push(finished.item);
        index += 1;
    }
    Ok(FinishedOptions { items, selected_indices, review_states })
}

// ---------------------------------------------------------------------------
// Actions.

/// The help text of an action: its own, else its name.
pub open spec fn help_of(action: RawAction) -> Seq<char> {
    match action.help {
        Some(help) => help@,
        None => action.name@,
    }
}

/// A review action's key, or its error.
pub open spec fn review_action_result(action: RawAction) -> Result<char, Seq<char>> {
    match action_key_result(action.key@) {
        Err(e) => Err(e),
        Ok(key) => if action.name@.len() == 0 {
            Err("review action name cannot be empty"@)
        } else {
            Ok(key)
        },
    }
}

/// A widget action's key, or its error.
pub open spec fn widget_action_result(action: RawAction) -> Result<KeyEvent, Seq<char>> {
    match action_key_event_result(action.key@) {
        Err(e) => Err(e),
        Ok(key) => if action.name@.len() == 0 {
            Err("action name cannot be empty"@)
        } else {
            Ok(key)
        },
    }
}

/// The first problem of the first `n` review actions: a bad action, a
/// reserved key, or a key bound before.
pub open spec fn review_actions_problem(actions: Seq<RawAction>, n: int) -> Option<Seq<char>>
    decreases n,
{
    if n <= 0 {
        None
    } else {
        match review_actions_problem(actions, n - 1) {
            Some(message) => Some(message),
            None => match review_action_result(actions[n - 1]) {
                Err(e) => Some(e),
                Ok(key) => if reserved_action_key(key) {
                    Some(reserved_message(key))
                } else if exists|j: int| 0 <= j < n - 1 && #[trigger] review_action_result(actions[j]) == Ok::<char, Seq<char>>(key) {
                    Some("duplicate review action key '"@ + seq![key] + "'"@)
                } else {
                    None
                },
            },
        }
    }
}

/// The first problem of the first `n` widget actions: a bad action or a key
/// bound before.
pub open spec fn widget_actions_problem(actions: Seq<RawAction>, n: int) -> Option<Seq<char>>
    decreases n,
{
    if n <= 0 {
        None
    } else {
        match widget_actions_problem(actions, n - 1) {
            Some(message) => Some(message),
            None => match widget_action_result(actions[n - 1]) {
                Err(e) => Some(e),
                Ok(key) => if exists|j: int| 0 <= j < n - 1 && #[trigger] widget_action_result(actions[j]) == Ok::<KeyEvent, Seq<char>>(key) {
                    Some("duplicate action key '"@ + key_label(key) + "'"@)
                } else {
                    None
                },
            },
        }
    }
}

proof fn lemma_review_problem_stays(actions: Seq<RawAction>, m: int, n: int)
    requires
        m <= n,
        review_actions_problem(actions, m) is Some,
    ensures
        review_actions_problem(actions, n) == review_actions_problem(actions, m),
    decreases n - m,
{
    if m < n {
        lemma_review_problem_stays(actions, m, n - 1);
    }
}

proof fn lemma_widget_problem_stays(actions: Seq<RawAction>, m: int, n: int)
    requires
        m <= n,
        widget_actions_problem(actions, m) is Some,
    ensures
        widget_actions_problem(actions, n) == widget_actions_problem(actions, m),
    decreases n - m,
{
    if m < n {
        lemma_widget_problem_stays(actions, m, n - 1);
    }
}

/// The review bindings hold the raw actions' keys, names and help texts.
pub open spec fn review_bindings_of(actions: Seq<RawAction>, bindings: Seq<ReviewActionBinding>) -> bool {
    &&& bindings.len() == actions.len()
    &&& forall|i: int| 0 <= i < actions.len() ==> Ok::<char, Seq<char>>((#[trigger] bindings[i]).bound_key())
        == review_action_result(actions[i]) && bindings[i].action_name() == actions[i].name@
        && bindings[i].help_text() == help_of(actions[i])
}

/// The widget bindings hold the raw actions' keys, names and help texts.
pub open spec fn widget_bindings_of(actions: Seq<RawAction>, bindings: Seq<ActionBinding>) -> bool {
    &&& bindings.len() == actions.len()
    &&& forall|i: int| 0 <= i < actions.len() ==> Ok::<KeyEvent, Seq<char>>((#[trigger] bindings[i]).bound_key())
        == widget_action_result(actions[i]) && bindings[i].action_name() == actions[i].name@
        && bindings[i].help_text() == help_of(actions[i])
}

impl RawAction {
    /// Check a review action.
    pub fn finish_review(self) -> (done: Result<ReviewActionBinding, String>)
        ensures
            match review_action_result(self) {
                Ok(key) => done matches Ok(b) && b.bound_key() == key && b.action_name() == self.name@
                    && b.help_text() == help_of(self),
                Err(e) => done matches Err(m) && m@ == e,
            },
    {
        let key = parse_action_key(self.key.as_str())?;
        if self.name.unicode_len() == 0 {
            return Err("review action name cannot be empty".to_owned());
        }
        let action = ReviewActionBinding::new(key, self.name);
        Ok(match self.help {
            Some(help) => action.with_help(help),
            None => action,
        })
    }

    /// Check a widget action.
    pub fn finish_action(self) -> (done: Result<ActionBinding, String>)
        ensures
            match widget_action_result(self) {
                Ok(key) => done matches Ok(b) && b.bound_key() == key && b.action_name() == self.name@
                    && b.help_text() == help_of(self),
                Err(e) => done matches Err(m) && m@ == e,
            },
    {
        let key = parse_action_key_event(self.key.as_str())?;
        if self.name.unicode_len() == 0 {
            return Err("action name cannot be empty".to_owned());
        }
        let action = ActionBinding::new(key, self.name);
        Ok(match self.help {
            Some(help) => action.with_help(help),
            None => action,
        })
    }
}

/// Check review actions; the first problem is the error.
#[verifier::loop_isolation(false)]
pub fn finish_review_actions(actions: Vec<RawAction>) -> (done: Result<Vec<ReviewActionBinding>, String>)
    ensures
        match review_actions_problem(actions@, actions@.len() as int) {
            Some(message) => done matches Err(m) && m@ == message,
            None => done matches Ok(bindings) && review_bindings_of(actions@, bindings@),
        },
{
    let ghost all = actions@;
    let mut seen: Vec<char> = Vec::new();
    let mut finished: Vec<ReviewActionBinding> = Vec::new();
    let mut rest = actions;
    let total: usize = rest.len();
    let mut index: usize = 0;
    while rest.len() > 0
        invariant
            index + rest@.len() == all.len(),
            index <= all.len(),
            all.len() == total,
            rest@ == all.subrange(index as int, all.len() as int),
            review_actions_problem(all, index as int) is None,
            seen@.len() == index,
            finished@.len() == index,
            forall|i: int| 0 <= i < index ==> review_action_result(#[trigger] all[i]) == Ok::<char, Seq<char>>(seen@[i]),
            forall|i: int| 0 <= i < index ==> (#[trigger] finished@[i]).bound_key() == seen@[i] && finished@[i].action_name()
                == all[i].name@ && finished@[i].help_text() == help_of(all[i]),
        decreases rest@.len(),
    {
        let raw = rest.remove(0);
        assert(raw == all[index as int]);
        let action = match raw.finish_review() {
            Ok(action) => action,
            Err(message) => {
                proof {
                    lemma_review_problem_stays(all, index + 1, all.len() as int);
                }
                return Err(message);
            },
        };
        let key = action.key();
        if is_reserved_action_key(key) {
            proof {
                lemma_review_problem_stays(all, index + 1, all.len() as int);
            }
            return Err(reserved_key_message(key));
        }
        let mut j: usize = 0;
        while j < seen.len()
            invariant
                j <= seen@.len(),
                seen@.len() == index,
                forall|m: int| 0 <= m < j ==> seen@[m] != key,
            decreases seen@.len() - j,
        {
            if seen[j] == key {
                let mut message = String::new();
                push_str(&mut message, "duplicate review action key '");
                push_char(&mut message, key);
                push_str(&mut message, "'");
                proof {
                    assert(review_action_result(all[j as int]) == Ok::<char, Seq<char>>(key));
                    assert(message@ =~= "duplicate review action key '"@ + seq![key] + "'"@);
                    lemma_review_problem_stays(all, index + 1, all.len() as int);
                }
                return Err(message);
            }
            j += 1;
        }
        proof {
            assert forall|m: int| 0 <= m < index implies #[trigger] review_action_result(all[m]) != Ok::<char, Seq<char>>(
                key,
            ) by {
                assert(review_action_result(all[m]) == Ok::<char, Seq<char>>(seen@[m]));
            }
        }
        seen.push(key);
        finished.push(action);
        index += 1;
    }
    Ok(finished)
}

/// Check widget actions; the first problem is the error.
#[verifier::loop_isolation(false)]
pub fn finish_widget_actions(actions: Vec<RawAction>) -> (done: Result<Vec<ActionBinding>, String>)
    ensures
        match widget_actions_problem(actions@, actions@.len() as int) {
            Some(message) => done matches Err(m) && m@ == message,
            None => done matches Ok(bindings) && widget_bindings_of(actions@, bindings@),
        },
{
    let ghost all = actions@;
    let mut seen: Vec<KeyEvent> = Vec::new();
    let mut finished: Vec<ActionBinding> = Vec::new();
    let mut rest = actions;
    let total: usize = rest.len();
    let mut index: usize = 0;
    while rest.len() > 0
        invariant
            index + rest@.len() == all.len(),
            index <= all.len(),
            all.len() == total,
            rest@ == all.subrange(index as int, all.len() as int),
            widget_actions_problem(all, index as int) is None,
            seen@.len() == index,
            finished@.len() == index,
            forall|i: int| 0 <= i < index ==> widget_action_result(#[trigger] all[i]) == Ok::<KeyEvent, Seq<char>>(seen@[i]),
            forall|i: int| 0 <= i < index ==> (#[trigger] finished@[i]).bound_key() == seen@[i] && finished@[i].action_name()
                == all[i].name@ && finished@[i].help_text() == help_of(all[i]),
        decreases rest@.len(),
    {
        let raw = rest.remove(0);
        assert(raw == all[index as int]);
        let action = match raw.finish_action() {
            Ok(action) => action,
            Err(message) => {
                proof {
                    lemma_widget_problem_stays(all, index + 1, all.len() as int);
                }
                return Err(message);
            },
        };
        let key = *action.key_event();
        let mut j: usize = 0;
        while j < seen.len()
            invariant
                j <= seen@.len(),
                seen@.len() == index,
                forall|m: int| 0 <= m < j ==> seen@[m] != key,
            decreases seen@.len() - j,
        {
            if seen[j] == key {
                let mut message = String::new();
                push_str(&mut message, "duplicate action key '");
                let label = format_action_key_event(&key);
                push_str(&mut message, label.as_str());
                push_str(&mut message, "'");
                proof {
                    assert(widget_action_result(all[j as int]) == Ok::<KeyEvent, Seq<char>>(key));
                    assert(message@ =~= "duplicate action key '"@ + key_label(key) + "'"@);
                    lemma_widget_problem_stays(all, index + 1, all.len() as int);
                }
                return Err(message);
            }
            j += 1;
        }
        proof {
            assert forall|m: int| 0 <= m < index implies #[trigger] widget_action_result(all[m]) != Ok::<KeyEvent, Seq<char>>(
                key,
            ) by {
                assert(widget_action_result(all[m]) == Ok::<KeyEvent, Seq<char>>(seen@[m]));
            }
        }
        seen.push(key);
        finished.push(action);
        index += 1;
    }
    Ok(finished)
}

/// The first problem of the actions of a review list or another widget.
pub open spec fn actions_problem(actions: Seq<RawAction>, review_list: bool) -> Option<Seq<char>> {
    if review_list {
        review_actions_problem(actions, actions.len() as int)
    } else {
        widget_actions_problem(actions, actions.len() as int)
    }
}

/// The checked actions: review bindings for a review list, widget bindings
/// for another widget, and nothing of the other sort.
pub open spec fn finished_actions(
    actions: Seq<RawAction>,
    review_list: bool,
    done: (Vec<ActionBinding>, Vec<ReviewActionBinding>),
) -> bool {
    if review_list {
        done.0@.len() == 0 && review_bindings_of(actions, done.1@)
    } else {
        done.1@.len() == 0 && widget_bindings_of(actions, done.0@)
    }
}

/// Check the actions of a review list or of another widget.
pub fn finish_actions(actions: Vec<RawAction>, review_list: bool) -> (done: Result<
    (Vec<ActionBinding>, Vec<ReviewActionBinding>),
    String,
>)
    ensures
        match actions_problem(actions@, review_list) {
            Some(message) => done matches Err(m) && m@ == message,
            None => done matches Ok(pair) && finished_actions(actions@, review_list, pair),
        },
{
    if review_list {
        let review = finish_review_actions(actions)?;
        Ok((Vec::new(), review))
    } else {
        let widget = finish_widget_actions(actions)?;
        Ok((widget, Vec::new()))
    }
}

// ---------------------------------------------------------------------------
// Checked configurations.

/// A checked form field.
#[derive(Debug)]
pub struct FieldConfig {
    pub name: String,
    pub kind: WidgetKind,
    pub page_size: Option<usize>,
    pub prompt: Option<String>,
    pub placeholder: Option<String>,
    pub value: Option<String>,
    pub wrap: Option<bool>,
    pub show_removed: Option<bool>,
    pub action_output: Option<bool>,
    pub actions: Vec<ActionBinding>,
    pub review_actions: Vec<ReviewActionBinding>,
    pub options: Vec<SelectItem>,
    pub selected_indices: Vec<usize>,
    pub review_states: Vec<ReviewState>,
    pub selected_date: Option<Date>,
    pub today: Option<Date>,
}

/// A checked widget configuration.
#[derive(Debug)]
pub struct WidgetConfig {
    pub kind: WidgetKind,
    pub input_bytes: Option<String>,
    pub page_size: Option<usize>,
    pub prompt: Option<String>,
    pub placeholder: Option<String>,
    pub value: Option<String>,
    pub wrap: Option<bool>,
    pub show_removed: Option<bool>,
    pub action_output: Option<bool>,
    pub actions: Vec<ActionBinding>,
    pub review_actions: Vec<ReviewActionBinding>,
    pub options: Vec<SelectItem>,
    pub selected_indices: Vec<usize>,
    pub review_states: Vec<ReviewState>,
    pub fields: Vec<FieldConfig>,
    pub selected_date: Option<Date>,
    pub today: Option<Date>,
}

/// The error of a date that is written but is no date.
pub open spec fn date_problem(text: Option<String>) -> Option<Seq<char>> {
    match text {
        Some(t) => if date_from_text(t@) is None {
            Some(invalid_date_message(t@))
        } else {
            None
        },
        None => None,
    }
}

/// The date that is written, if any.
pub open spec fn date_value(text: Option<String>) -> Option<Date> {
    match text {
        Some(t) => date_from_text(t@),
        None => None,
    }
}

fn parse_date(value: &str) -> (date: Result<Date, String>)
    ensures
        match date_from_text(value@) {
            Some(d) => date == Ok::<Date, String>(d),
            None => date matches Err(m) && m@ == invalid_date_message(value@),
        },
{
    Date::parse(value)
}

fn parse_optional_date(text: &Option<String>) -> (date: Result<Option<Date>, String>)
    ensures
        match date_problem(*text) {
            Some(message) => date matches Err(m) && m@ == message,
            None => date == Ok::<Option<Date>, String>(date_value(*text)),
        },
{
    match text {
        Some(t) => Ok(Some(parse_date(t.as_str())?)),
        None => Ok(None),
    }
}

/// The error of a form field, if any: a nested form, missing options, a
/// page of no rows, a date field without a date, then a bad option, a bad
/// action, or a date that is no date.
pub open spec fn field_problem(field: RawFieldConfig) -> Option<Seq<char>> {
    if field.kind == RawWidgetKind::Form {
        Some("nested form fields are not supported yet"@)
    } else if lists_options(field.kind) && field.options@.len() == 0 {
        Some("field '"@ + field.name@ + "' type '"@ + kind_name(field.kind) + "' requires at least one option"@)
    } else if field.page_size == Some(0usize) {
        Some("field '"@ + field.name@ + "' page_size must be at least 1"@)
    } else if field.kind == RawWidgetKind::Date && field.selected_date is None {
        Some("field '"@ + field.name@ + "' type 'date' requires selected_date"@)
    } else {
        match first_problem(options_problems(field.options@), field.options@.len() as int) {
            Some(message) => Some(message),
            None => match actions_problem(field.actions@, field.kind == RawWidgetKind::ReviewList) {
                Some(message) => Some(message),
                None => match date_problem(field.selected_date) {
                    Some(message) => Some(message),
                    None => date_problem(field.today),
                },
            },
        }
    }
}

/// A checked field holds what the raw one says.
pub open spec fn finished_field(field: RawFieldConfig, done: FieldConfig) -> bool {
    &&& done.name@ == field.name@
    &&& done.kind == widget_kind_of(field.kind)
    &&& done.page_size == field.page_size
    &&& done.prompt == field.prompt
    &&& done.placeholder == field.placeholder
    &&& done.value == field.value
    &&& done.wrap == field.wrap
    &&& done.show_removed == field.show_removed
    &&& done.action_output == field.action_output
    &&& finished_actions(field.actions@, field.kind == RawWidgetKind::ReviewList, (done.actions, done.review_actions))
    &&& options_hold(field.options@, done.options@, done.selected_indices@, done.review_states@)
    &&& done.selected_date == date_value(field.selected_date)
    &&& done.today == date_value(field.today)
}

pub open spec fn fields_problems(fields: Seq<RawFieldConfig>) -> Seq<Option<Seq<char>>> {
    Seq::new(fields.len(), |i: int| field_problem(fields[i]))
}

impl RawFieldConfig {
    /// Check a form field.
    pub fn finish(self) -> (done: Result<FieldConfig, String>)
        ensures
            match field_problem(self) {
                Some(message) => done matches Err(m) && m@ == message,
                None => done matches Ok(field) && finished_field(self, field),
            },
    {
        if self.kind == RawWidgetKind::Form {
            return Err("nested form fields are not supported yet".to_owned());
        }
        if self.kind.lists_options() && self.options.len() == 0 {
            let mut message = String::new();
            push_str(&mut message, "field '");
            push_str(&mut message, self.name.as_str());
            push_str(&mut message, "' type '");
            push_str(&mut message, self.kind.name());
            push_str(&mut message, "' requires at least one option");
            return Err(message);
        }
        if self.page_size == Some(0usize) {
            let mut message = String::new();
            push_str(&mut message, "field '");
            push_str(&mut message, self.name.as_str());
            push_str(&mut message, "' page_size must be at least 1");
            return Err(message);
        }
        if self.kind == RawWidgetKind::Date && self.selected_date.is_none() {
            let mut message = String::new();
            push_str(&mut message, "field '");
            push_str(&mut message, self.name.as_str());
            push_str(&mut message, "' type 'date' requires selected_date");
            return Err(message);
        }
        let options = finish_options(self.options)?;
        let is_review_list = self.kind == RawWidgetKind::ReviewList;
        let (actions, review_actions) = finish_actions(self.actions, is_review_list)?;
        let selected_date = parse_optional_date(&self.selected_date)?;
        let today = parse_optional_date(&self.today)?;
        Ok(FieldConfig {
            name: self.name,
            kind: WidgetKind::from(self.kind),
            page_size: self.page_size,
            prompt: self.prompt,
            placeholder: self.placeholder,
            value: self.value,
            wrap: self.wrap,
            show_removed: self.show_removed,
            action_output: self.action_output,
            actions,
            review_actions,
            options: options.items,
            selected_indices: options.selected_indices,
            review_states: options.review_states,
            selected_date,
            today,
        })
    }
}

/// Check every field; the first problem is the error.
#[verifier::loop_isolation(false)]
fn finish_fields(fields: Vec<RawFieldConfig>) -> (done: Result<Vec<FieldConfig>, String>)
    ensures
        match first_problem(fields_problems(fields@), fields@.len() as int) {
            Some(message) => done matches Err(m) && m@ == message,
            None => done matches Ok(finished) && finished@.len() == fields@.len() && forall|i: int|
                0 <= i < fields@.len() ==> finished_field(fields@[i], #[trigger] finished@[i]),
        },
{
    let ghost all = fields@;
    let ghost problems = fields_problems(fields@);
    let mut finished: Vec<FieldConfig> = Vec::new();
    let mut rest = fields;
    let total: usize = rest.len();
    let mut index: usize = 0;
    while rest.len() > 0
        invariant
            index <= all.len(),
            all.len() == total,
            rest@ == all.subrange(index as int, all.len() as int),
            first_problem(problems, index as int) is None,
            finished@.len() == index,
            forall|i: int| 0 <= i < index ==> finished_field(all[i], #[trigger] finished@[i]),
        decreases rest@.len(),
    {
        let field = rest.remove(0);
        assert(field == all[index as int]);
        let done = match field.finish() {
            Ok(done) => done,
            Err(message) => {
                proof {
                    assert(first_problem(problems, index + 1) == Some(message@));
                    lemma_first_problem_stays(problems, index + 1, all.len() as int);
                }
                return Err(message);
            },
        };
        finished.push(done);
        index += 1;
    }
    Ok(finished)
}

/// The error of a configuration, if any: missing options, a form without
/// fields, a date widget without a date, a page of no rows, then a bad
/// option, field or action, or a date that is no date.
pub open spec fn config_problem(raw: RawConfig) -> Option<Seq<char>> {
    if lists_options(raw.kind) && raw.options@.len() == 0 {
        Some("config type '"@ + kind_name(raw.kind) + "' requires at least one option"@)
    } else if raw.kind == RawWidgetKind::Form && raw.fields@.len() == 0 {
        Some("config type 'form' requires at least one field"@)
    } else if raw.kind == RawWidgetKind::Date && raw.selected_date is None {
        Some("config type 'date' requires selected_date"@)
    } else if raw.page_size == Some(0usize) {
        Some("config page_size must be at least 1"@)
    } else {
        match first_problem(options_problems(raw.options@), raw.options@.len() as int) {
            Some(message) => Some(message),
            None => match first_problem(fields_problems(raw.fields@), raw.fields@.len() as int) {
                Some(message) => Some(message),
                None => match actions_problem(raw.actions@, raw.kind == RawWidgetKind::ReviewList) {
                    Some(message) => Some(message),
                    None => match date_problem(raw.selected_date) {
                        Some(message) => Some(message),
                        None => date_problem(raw.today),
                    },
                },
            },
        }
    }
}

/// A checked configuration holds what the raw one says.
pub open spec fn finished_config(raw: RawConfig, done: WidgetConfig) -> bool {
    &&& done.kind == widget_kind_of(raw.kind)
    &&& done.input_bytes == raw.input_bytes
    &&& done.page_size == raw.page_size
    &&& done.prompt == raw.prompt
    &&& done.placeholder == raw.placeholder
    &&& done.value == raw.value
    &&& done.wrap == raw.wrap
    &&& done.show_removed == raw.show_removed
    &&& done.action_output == raw.action_output
    &&& finished_actions(raw.actions@, raw.kind == RawWidgetKind::ReviewList, (done.actions, done.review_actions))
    &&& options_hold(raw.options@, done.options@, done.selected_indices@, done.review_states@)
    &&& done.fields@.len() == raw.fields@.len()
    &&& forall|i: int| 0 <= i < raw.fields@.len() ==> finished_field(raw.fields@[i], #[trigger] done.fields@[i])
    &&& done.selected_date == date_value(raw.selected_date)
    &&& done.today == date_value(raw.today)
}

impl RawConfig {
    /// Check a configuration.
    pub fn finish(self) -> (done: Result<WidgetConfig, String>)
        ensures
            match config_problem(self) {
                Some(message) => done matches Err(m) && m@ == message,
                None => done matches Ok(config) && finished_config(self, config),
            },
    {
        if self.kind.lists_options() && self.options.len() == 0 {
            let mut message = String::new();
            push_str(&mut message, "config type '");
            push_str(&mut message, self.kind.name());
            push_str(&mut message, "' requires at least one option");
            return Err(message);
        }
        if self.kind == RawWidgetKind::Form && self.fields.len() == 0 {
            return Err("config type 'form' requires at least one field".to_owned());
        }
        if self.kind == RawWidgetKind::Date && self.selected_date.is_none() {
            return Err("config type 'date' requires selected_date".to_owned());
        }
        if self.page_size == Some(0usize) {
            return Err("config page_size must be at least 1".to_owned());
        }
        let options = finish_options(self.options)?;
        let fields = finish_fields(self.fields)?;
        let is_review_list = self.kind == RawWidgetKind::ReviewList;
        let (actions, review_actions) = finish_actions(self.actions, is_review_list)?;
        let selected_date = parse_optional_date(&self.selected_date)?;
        let today = parse_optional_date(&self.today)?;
        Ok(WidgetConfig {
            kind: WidgetKind::from(self.kind),
            input_bytes: self.input_bytes,
            page_size: self.page_size,
            prompt: self.prompt,
            placeholder: self.placeholder,
            value: self.value,
            wrap: self.wrap,
            show_removed: self.show_removed,
            action_output: self.action_output,
            actions,
            review_actions,
            options: options.items,
            selected_indices: options.selected_indices,
            review_states: options.review_states,
            fields,
            selected_date,
            today,
        })
    }
}

/// The text input a text configuration describes: its prompt (`text: `
/// when none), placeholder and starting value.
pub fn text_from_config(config: &WidgetConfig) -> (input: TextInput)
    ensures
        input.identity_text() == "text"@,
        input.prompt_spans().len() == 1,
        input.prompt_spans()[0].text@ == match config.prompt {
            Some(p) => p@,
            None => "text: "@,
        },
        input.placeholder_text() == match config.placeholder {
            Some(p) => Some(p@),
            None => None::<Seq<char>>,
        },
        input.text() == match config.value {
            Some(v) => v@,
            None => Seq::<char>::empty(),
        },
{
    let mut input = TextInput::new("text");
    match &config.prompt {
        Some(prompt) => {
            input = input.with_prompt(prompt.clone());
        },
        None => {
            input = input.with_prompt("text: ");
        },
    }
    match &config.placeholder {
        Some(placeholder) => {
            input = input.with_placeholder(placeholder.clone());
        },
        None => {},
    }
    match &config.value {
        Some(value) => {
            input = input.with_value(value.clone());
        },
        None => {},
    }
    input
}

} // verus!
