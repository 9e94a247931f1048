//! Input events delivered to widgets.

use vstd::prelude::*;

verus! {

/// An input event.
#[derive(Debug)]
pub enum Event {
    /// A key press.
    Key(KeyEvent),
    /// Pasted text.
    Paste(String),
    /// The terminal changed size.
    Resize { cols: u16, rows: u16 },
    /// An animation tick.
    Tick,
    /// A complete escape sequence that names no known key.
    UnknownEscape(Vec<u8>),
}

impl Event {
    pub fn key(key: Key) -> (event: Self)
        ensures
            event == Event::Key(KeyEvent { key, modifiers: Modifiers(0) }),
    {
        Event::Key(KeyEvent::new(key))
    }

    pub fn char(value: char) -> (event: Self)
        ensures
            event == Event::Key(KeyEvent { key: Key::Char(value), modifiers: Modifiers(0) }),
    {
        Event::key(Key::Char(value))
    }

    /// Whether this event is the given character pressed with Control held.
    pub open spec fn is_control_char_spec(self, value: char) -> bool {
        match self {
            Event::Key(key) => key.key == Key::Char(value) && (key.modifiers.0 & 4u8) == 4u8,
            _ => false,
        }
    }

    pub fn is_control_char(&self, value: char) -> (hit: bool)
        ensures
            hit == self.is_control_char_spec(value),
    {
        match self {
            Event::Key(key) => key.key == Key::Char(value) && key.modifiers.contains(Modifiers::CONTROL()),
            _ => false,
        }
    }
}

/// The mathematical value of an [`Event`]: text and bytes as sequences.
pub enum EventModel {
    Key(KeyEvent),
    Paste(Seq<char>),
    Resize { cols: u16, rows: u16 },
    Tick,
    UnknownEscape(Seq<u8>),
}

impl View for Event {
    type V = EventModel;

    open spec fn view(&self) -> EventModel {
        match self {
            Event::Key(key) => EventModel::Key(*key),
            Event::Paste(text) => EventModel::Paste(text@),
            Event::Resize { cols, rows } => EventModel::Resize { cols: *cols, rows: *rows },
            Event::Tick => EventModel::Tick,
            Event::UnknownEscape(bytes) => EventModel::UnknownEscape(bytes@),
        }
    }
}

/// The key event for `key` with no modifier held.
pub open spec fn plain_key(key: Key) -> EventModel {
    EventModel::Key(KeyEvent { key, modifiers: Modifiers(0) })
}

/// The key event for `key` with the modifier bits `bits` held.
pub open spec fn modified_key(key: Key, bits: u8) -> EventModel {
    EventModel::Key(KeyEvent { key, modifiers: Modifiers(bits) })
}

impl Clone for Event {
    fn clone(&self) -> (copy: Self)
        ensures
            copy@ == self@,
    {
        match self {
            Event::Key(key) => Event::Key(KeyEvent { key: key.key, modifiers: key.modifiers }),
            Event::Paste(text) => Event::Paste(text.clone()),
            Event::Resize { cols, rows } => Event::Resize { cols: *cols, rows: *rows },
            Event::Tick => Event::Tick,
            Event::UnknownEscape(bytes) => {
                let copy = bytes.clone();
                assert(copy@ =~= bytes@);
                Event::UnknownEscape(copy)
            },
        }
    }
}

/// A key together with the modifiers held while it was pressed.
#[derive(Clone, Copy, Debug, PartialEq, Eq, Structural)]
pub struct KeyEvent {
    pub key: Key,
    pub modifiers: Modifiers,
}

impl KeyEvent {
    pub fn new(key: Key) -> (event: Self)
        ensures
            event == (KeyEvent { key, modifiers: Modifiers(0) }),
    {
        KeyEvent { key, modifiers: Modifiers::empty() }
    }

    pub fn with_modifiers(key: Key, modifiers: Modifiers) -> (event: Self)
        ensures
            event == (KeyEvent { key, modifiers }),
    {
        KeyEvent { key, modifiers }
    }
}

/// The keys a widget can receive.
#[derive(Clone, Copy, Debug, PartialEq, Eq, Structural)]
pub enum Key {
    Char(char),
    Enter,
    Esc,
    Tab,
    Backtab,
    Backspace,
    Delete,
    Up,
    Down,
    Left,
    Right,
    Home,
    End,
    PageUp,
    PageDown,
}

/// A set of modifier keys, one bit per modifier.
#[derive(Clone, Copy, Debug, Default, PartialEq, Eq, Hash, Structural)]
pub struct Modifiers(pub u8);

impl Modifiers {
    #[allow(non_snake_case)]
    pub fn SHIFT() -> (set: Self)
        ensures
            set.0 == 1,
    {
        Modifiers(1)
    }

    #[allow(non_snake_case)]
    pub fn ALT() -> (set: Self)
        ensures
            set.0 == 2,
    {
        Modifiers(2)
    }

    #[allow(non_snake_case)]
    pub fn CONTROL() -> (set: Self)
        ensures
            set.0 == 4,
    {
        Modifiers(4)
    }

    #[allow(non_snake_case)]
    pub fn SUPER() -> (set: Self)
        ensures
            set.0 == 8,
    {
        Modifiers(8)
    }

    pub fn empty() -> (set: Self)
        ensures
            set.0 == 0,
    {
        Modifiers(0)
    }

    pub fn contains(self, other: Self) -> (holds: bool)
        ensures
            holds == (self.0 & other.0 == other.0),
    {
        self.0 & other.0 == other.0
    }

    pub fn bits(self) -> (bits: u8)
        ensures
            bits == self.0,
    {
        self.0
    }

    /// The set holding every modifier of either set.
    pub fn union(self, other: Self) -> (set: Self)
        ensures
            set.0 == self.0 | other.0,
    {
        Modifiers(self.0 | other.0)
    }
}

impl core::ops::BitOr for Modifiers {
    type Output = Modifiers;

    fn bitor(self, rhs: Self) -> (set: Self) {
        Modifiers(self.0 | rhs.0)
    }
}

impl vstd::std_specs::ops::BitOrSpecImpl for Modifiers {
    open spec fn obeys_bitor_spec() -> bool {
        true
    }

    open spec fn bitor_req(self, rhs: Modifiers) -> bool {
        true
    }

    open spec fn bitor_spec(self, rhs: Modifiers) -> Modifiers {
        Modifiers(self.0 | rhs.0)
    }
}

/// Whether two byte strings are equal.
fn bytes_equal(a: &Vec<u8>, b: &Vec<u8>) -> (same: bool)
    ensures
        same == (a@ == b@),
{
    if a.len() != b.len() {
        return false;
    }
    let mut i: usize = 0;
    while i < a.len()
        invariant
            i <= a@.len(),
            a@.len() == b@.len(),
            forall|k: int| 0 <= k < i ==> a@[k] == b@[k],
        decreases a@.len() - i,
    {
        if a[i] != b[i] {
            return false;
        }
        i += 1;
    }
    assert(a@ =~= b@);
    true
}

impl PartialEq for Event {
    fn eq(&self, other: &Self) -> (same: bool) {
        match (self, other) {
            (Event::Key(a), Event::Key(b)) => *a == *b,
            (Event::Paste(a), Event::Paste(b)) => *a == *b,
            (Event::Resize { cols: c1, rows: r1 }, Event::Resize { cols: c2, rows: r2 }) => *c1 == *c2 && *r1
                == *r2,
            (Event::Tick, Event::Tick) => true,
            (Event::UnknownEscape(a), Event::UnknownEscape(b)) => bytes_equal(a, b),
            _ => false,
        }
    }
}

impl vstd::std_specs::cmp::PartialEqSpecImpl for Event {
    open spec fn obeys_eq_spec() -> bool {
        true
    }

    open spec fn eq_spec(&self, other: &Event) -> bool {
        self@ == other@
    }
}

impl Eq for Event {}

} // verus!
