//! Named actions bound to keys, layered over a widget: a bound key submits
//! the action's name together with the widget's current value.

use vstd::prelude::*;
use vstd::view::View as _;

use crate::bang_core::event::{Event, Key, KeyEvent, Modifiers};
use crate::bang_core::ids::WidgetId;
use crate::bang_core::render::{ListPresentation, View, ViewContext};
use crate::bang_core::value::{Value, ValueModel};
use crate::bang_core::widget::{Context, Reaction, Widget};
use crate::text::IntoText;

verus! {

/// A key bound to a named action, with a help text.
#[derive(Debug, PartialEq, Eq)]
pub struct ActionBinding {
    key: KeyEvent,
    name: String,
    help: String,
}

impl ActionBinding {
    pub closed spec fn bound_key(&self) -> KeyEvent {
        self.key
    }

    pub closed spec fn action_name(&self) -> Seq<char> {
        self.name@
    }

    pub closed spec fn help_text(&self) -> Seq<char> {
        self.help@
    }

    /// A binding whose help text is its name.
    pub fn new<T: IntoText>(key: KeyEvent, name: T) -> (binding: Self)
        ensures
            binding.bound_key() == key,
            binding.action_name() == name.text_chars(),
            binding.help_text() == name.text_chars(),
    {
        let name = name.into_text();
        ActionBinding { key, help: name.clone(), name }
    }

    /// A binding of a plain character key.
    pub fn char<T: IntoText>(key: char, name: T) -> (binding: Self)
        ensures
            binding.bound_key() == (KeyEvent { key: Key::Char(key), modifiers: Modifiers(0) }),
            binding.action_name() == name.text_chars(),
            binding.help_text() == name.text_chars(),
    {
        ActionBinding::new(KeyEvent::new(Key::Char(key)), name)
    }

    /// A binding of a character key held with control.
    pub fn control_char<T: IntoText>(key: char, name: T) -> (binding: Self)
        ensures
            binding.bound_key() == (KeyEvent { key: Key::Char(key), modifiers: Modifiers(4) }),
            binding.action_name() == name.text_chars(),
            binding.help_text() == name.text_chars(),
    {
        ActionBinding::new(KeyEvent::with_modifiers(Key::Char(key), Modifiers::CONTROL()), name)
    }

    pub fn with_help<T: IntoText>(self, help: T) -> (binding: Self)
        ensures
            binding.bound_key() == self.bound_key(),
            binding.action_name() == self.action_name(),
            binding.help_text() == help.text_chars(),
    {
        ActionBinding { key: self.key, name: self.name, help: help.into_text() }
    }

    pub fn key_event(&self) -> (key: &KeyEvent)
        ensures
            *key == self.bound_key(),
    {
        &self.key
    }

    pub fn name(&self) -> (name: &str)
        ensures
            name@ == self.action_name(),
    {
        self.name.as_str()
    }

    pub fn help(&self) -> (help: &str)
        ensures
            help@ == self.help_text(),
    {
        self.help.as_str()
    }

    fn matches(&self, key: &KeyEvent) -> (hit: bool)
        ensures
            hit == (self.key == *key),
    {
        self.key == *key
    }
}

/// A widget with actions bound over it.
#[derive(Debug)]
pub struct ActionLayer<W> {
    widget: W,
    actions: Vec<ActionBinding>,
}

impl Clone for ActionBinding {
    /// The same key, name and help text.
    fn clone(&self) -> (copy: Self)
        ensures
            copy.bound_key() == self.bound_key(),
            copy.action_name() == self.action_name(),
            copy.help_text() == self.help_text(),
    {
        ActionBinding {
            key: KeyEvent { key: self.key.key, modifiers: self.key.modifiers },
            name: self.name.clone(),
            help: self.help.clone(),
        }
    }
}

/// A copy of each binding, in order.
fn clone_bindings(actions: &Vec<ActionBinding>) -> (copies: Vec<ActionBinding>)
    ensures
        copies@.len() == actions@.len(),
        forall|i: int|
            0 <= i < actions@.len() ==> #[trigger] copies@[i].bound_key() == actions@[i].bound_key()
                && copies@[i].action_name() == actions@[i].action_name() && copies@[i].help_text()
                == actions@[i].help_text(),
{
    let mut copies: Vec<ActionBinding> = Vec::new();
    let mut i: usize = 0;
    while i < actions.len()
        invariant
            i <= actions@.len(),
            copies@.len() == i,
            forall|j: int|
                0 <= j < i ==> #[trigger] copies@[j].bound_key() == actions@[j].bound_key()
                    && copies@[j].action_name() == actions@[j].action_name() && copies@[j].help_text()
                    == actions@[j].help_text(),
        decreases actions@.len() - i,
    {
        copies.push(actions[i].clone());
        i += 1;
    }
    copies
}

impl<W: Clone> Clone for ActionLayer<W> {
    /// The widget cloned, and bindings with the same keys, names and help
    /// texts.
    fn clone(&self) -> (copy: Self)
        ensures
            cloned(self.inner(), copy.inner()),
            copy.bindings().len() == self.bindings().len(),
            forall|i: int|
                0 <= i < self.bindings().len() ==> #[trigger] copy.bindings()[i].bound_key()
                    == self.bindings()[i].bound_key() && copy.bindings()[i].action_name()
                    == self.bindings()[i].action_name() && copy.bindings()[i].help_text()
                    == self.bindings()[i].help_text(),
    {
        ActionLayer { widget: self.widget.clone(), actions: clone_bindings(&self.actions) }
    }
}

/// The value an action submits: an object of the action's name and the
/// widget's value.
pub open spec fn action_output_model(action: Seq<char>, value: ValueModel) -> ValueModel {
    ValueModel::Object(seq![("action"@, ValueModel::Text(action)), ("value"@, value)])
}

/// The first of `actions` bound to `key`, if any.
pub open spec fn first_bound(actions: Seq<ActionBinding>, key: KeyEvent) -> Option<int> {
    if exists|i: int| 0 <= i < actions.len() && #[trigger] actions[i].bound_key() == key {
        Some(
            choose|i: int|
                0 <= i < actions.len() && #[trigger] actions[i].bound_key() == key && forall|j: int|
                    0 <= j < i ==> #[trigger] actions[j].bound_key() != key,
        )
    } else {
        None
    }
}

impl<W> ActionLayer<W> {
    pub closed spec fn inner(&self) -> W {
        self.widget
    }

    pub closed spec fn bindings(&self) -> Seq<ActionBinding> {
        self.actions@
    }

    pub fn new(widget: W) -> (layer: Self)
        ensures
            layer.inner() == widget,
            layer.bindings().len() == 0,
    {
        ActionLayer { widget, actions: Vec::new() }
    }

    /// The layer with exactly these actions.
    pub fn with_actions(self, actions: Vec<ActionBinding>) -> (layer: Self)
        ensures
            layer.inner() == self.inner(),
            layer.bindings() == actions@,
    {
        ActionLayer { widget: self.widget, actions }
    }

    pub fn push_action(&mut self, action: ActionBinding)
        ensures
            final(self).inner() == old(self).inner(),
            final(self).bindings() == old(self).bindings().push(action),
    {
        self.actions.push(action);
    }

    pub fn actions(&self) -> (actions: &[ActionBinding])
        ensures
            actions@ == self.bindings(),
    {
        self.actions.as_slice()
    }

    pub fn into_inner(self) -> (widget: W)
        ensures
            widget == self.inner(),
    {
        self.widget
    }
}

fn action_output(action: &str, value: Value) -> (output: Value)
    ensures
        output@ == action_output_model(action@, value@),
{
    let mut fields: Vec<(String, Value)> = Vec::new();
    fields.push(("action".to_owned(), Value::String(action.to_owned())));
    fields.push(("value".to_owned(), value));
    let output = Value::Object(fields);
    proof {
        crate::bang_core::value::lemma_fields_model_len(fields@);
        assert(crate::bang_core::value::fields_model(fields@) =~= seq![
            ("action"@, ValueModel::Text(action@)),
            ("value"@, value@),
        ]);
    }
    output
}

impl<W: Widget> ActionLayer<W> {
    /// The first binding of `key`.
    fn find_binding(&self, key: &KeyEvent) -> (found: Option<usize>)
        ensures
            match found {
                Some(i) => i < self.actions@.len() && self.actions@[i as int].bound_key() == *key
                    && forall|j: int| 0 <= j < i ==> #[trigger] self.actions@[j].bound_key() != *key,
                None => forall|j: int| 0 <= j < self.actions@.len() ==> #[trigger] self.actions@[j].bound_key() != *key,
            },
    {
        let mut i: usize = 0;
        while i < self.actions.len()
            invariant
                i <= self.actions@.len(),
                forall|j: int| 0 <= j < i ==> #[trigger] self.actions@[j].bound_key() != *key,
            decreases self.actions@.len() - i,
        {
            if self.actions[i].matches(key) {
                return Some(i);
            }
            i += 1;
        }
        None
    }
}

impl<W: Widget> Widget for ActionLayer<W> {
    open spec fn identity(&self) -> Seq<char> {
        self.inner().identity()
    }

    open spec fn held_value(&self) -> Option<ValueModel> {
        self.inner().held_value()
    }

    open spec fn reacts(&self, event: Event, layout: Seq<ListPresentation>, reaction: Reaction) -> bool {
        match event {
            Event::Key(key) => match first_bound(self.bindings(), key) {
                Some(i) => reaction matches Reaction::Submit(v) && v@ == action_output_model(
                    self.bindings()[i].action_name(),
                    match self.held_value() {
                        Some(held) => held,
                        None => ValueModel::Null,
                    },
                ),
                None => self.inner().reacts(event, layout, reaction),
            },
            _ => self.inner().reacts(event, layout, reaction),
        }
    }

    /// What the widget holds after the event, unchanged by a bound key.
    open spec fn holds_after(&self, event: Event, layout: Seq<ListPresentation>, value: Option<ValueModel>) -> bool {
        match event {
            Event::Key(key) => match first_bound(self.bindings(), key) {
                Some(i) => value == self.held_value(),
                None => self.inner().holds_after(event, layout, value),
            },
            _ => self.inner().holds_after(event, layout, value),
        }
    }

    fn id(&self) -> (id: WidgetId) {
        self.widget.id()
    }

    /// A key bound to an action submits the first such action with the
    /// widget's value (`Null` when it holds none); any other event goes to
    /// the widget.
    fn handle(&mut self, event: Event, cx: &mut Context) -> (reaction: Reaction)
        ensures
            match event {
                Event::Key(key) => match first_bound(old(self).bindings(), key) {
                    Some(i) => reaction matches Reaction::Submit(v) && v@ == action_output_model(
                        old(self).bindings()[i].action_name(),
                        match old(self).held_value() {
                            Some(held) => held,
                            None => ValueModel::Null,
                        },
                    ) && *final(self) == *old(self),
                    None => old(self).inner().reacts(event, old(cx).lists(), reaction)
                        && old(self).inner().holds_after(event, old(cx).lists(), final(self).inner().held_value()),
                },
                _ => old(self).inner().reacts(event, old(cx).lists(), reaction)
                    && old(self).inner().holds_after(event, old(cx).lists(), final(self).inner().held_value()),
            },
            final(self).bindings() == old(self).bindings(),
    {
        if let Event::Key(key) = &event {
            match self.find_binding(key) {
                Some(i) => {
                    let value = match self.widget.current_value() {
                        Some(value) => value,
                        None => Value::Null,
                    };
                    let output = action_output(self.actions[i].name(), value);
                    proof {
                        let k = *key;
                        assert(self.actions@[i as int].bound_key() == k);
                        let chosen = first_bound(self.bindings(), k);
                        assert(chosen == Some(i as int)) by {
                            let c = choose|m: int|
                                0 <= m < self.bindings().len() && #[trigger] self.bindings()[m].bound_key() == k
                                    && forall|j: int| 0 <= j < m ==> #[trigger] self.bindings()[j].bound_key() != k;
                            if c < i {
                                assert(self.actions@[c].bound_key() != k);
                            }
                            if c > i {
                                assert(self.bindings()[i as int].bound_key() != k);
                            }
                        }
                    }
                    return Reaction::Submit(output);
                },
                None => {},
            }
        }
        self.widget.handle(event, cx)
    }

    open spec fn shows(&self, cx: ViewContext, view: View) -> bool {
        self.inner().shows(cx, view)
    }

    fn view(&self, cx: &ViewContext) -> View {
        self.widget.view(cx)
    }

    fn current_value(&self) -> (value: Option<Value>) {
        self.widget.current_value()
    }
}

} // verus!
