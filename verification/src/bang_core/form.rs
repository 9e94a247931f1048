//! A form of named fields, one active at a time, that submits an object of
//! every field's value.

use vstd::prelude::*;
use vstd::view::View as _;

use crate::bang_core::event::{Event, Key};
use crate::bang_core::ids::WidgetId;
use crate::bang_core::render::{ListPresentation, Role, Span, View, ViewContext};
use crate::bang_core::value::{fields_model, lemma_fields_model_len, Value, ValueModel};
use crate::bang_core::widget::{Context, FocusTarget, Reaction, Widget};
use crate::text::{is_text_before, lemma_text_before_total, lemma_text_before_transitive, text_before, IntoText};

verus! {

/// An object model with `key` set to `value`: the entry replaced where the
/// key is present, else inserted before the first greater key, as a sorted
/// map does.
pub open spec fn object_insert(entries: Seq<(Seq<char>, ValueModel)>, key: Seq<char>, value: ValueModel) -> Seq<(Seq<char>, ValueModel)>
    decreases entries.len(),
{
    if entries.len() == 0 {
        seq![(key, value)]
    } else if entries[0].0 == key {
        entries.update(0, (key, value))
    } else if text_before(key, entries[0].0) {
        seq![(key, value)] + entries
    } else {
        seq![entries[0]] + object_insert(entries.drop_first(), key, value)
    }
}

/// The object of named values: each name once, in the order of names, with
/// the last value given under it.
pub open spec fn object_of(entries: Seq<(Seq<char>, ValueModel)>) -> Seq<(Seq<char>, ValueModel)>
    decreases entries.len(),
{
    if entries.len() == 0 {
        Seq::empty()
    } else {
        object_insert(object_of(entries.drop_last()), entries.last().0, entries.last().1)
    }
}

/// The names of an object in strictly increasing order.
pub open spec fn names_increasing(entries: Seq<(Seq<char>, ValueModel)>) -> bool {
    forall|i: int, j: int| 0 <= i < j < entries.len() ==> text_before(#[trigger] entries[i].0, #[trigger] entries[j].0)
}

/// Setting a name in a sorted object keeps it sorted; every name of the
/// result is the name set or one the object had.
proof fn lemma_object_insert_sorted(entries: Seq<(Seq<char>, ValueModel)>, key: Seq<char>, value: ValueModel)
    requires
        names_increasing(entries),
    ensures
        names_increasing(object_insert(entries, key, value)),
        forall|i: int|
            0 <= i < object_insert(entries, key, value).len() ==> #[trigger] object_insert(entries, key, value)[i].0
                == key || exists|j: int| 0 <= j < entries.len() && entries[j].0 == object_insert(entries, key, value)[i].0,
    decreases entries.len(),
{
    let result = object_insert(entries, key, value);
    if entries.len() == 0 {
    } else if entries[0].0 == key {
        assert forall|i: int| 0 <= i < result.len() implies #[trigger] result[i].0 == key || exists|j: int|
            0 <= j < entries.len() && entries[j].0 == result[i].0 by {
            if i > 0 {
                assert(entries[i].0 == result[i].0);
            }
        }
    } else if text_before(key, entries[0].0) {
        assert forall|i: int, j: int| 0 <= i < j < result.len() implies text_before(#[trigger] result[i].0, #[trigger] result[j].0) by {
            if i == 0 {
                if j > 1 {
                    lemma_text_before_transitive(key, entries[0].0, entries[j - 1].0);
                }
            } else {
                assert(result[i] == entries[i - 1]);
                assert(result[j] == entries[j - 1]);
            }
        }
        assert forall|i: int| 0 <= i < result.len() implies #[trigger] result[i].0 == key || exists|j: int|
            0 <= j < entries.len() && entries[j].0 == result[i].0 by {
            if i > 0 {
                assert(entries[i - 1].0 == result[i].0);
            }
        }
    } else {
        let rest = entries.drop_first();
        assert(names_increasing(rest)) by {
            assert forall|i: int, j: int| 0 <= i < j < rest.len() implies text_before(#[trigger] rest[i].0, #[trigger] rest[j].0) by {
                assert(rest[i] == entries[i + 1]);
                assert(rest[j] == entries[j + 1]);
            }
        }
        lemma_object_insert_sorted(rest, key, value);
        let tail = object_insert(rest, key, value);
        assert(result =~= seq![entries[0]] + tail);
        lemma_text_before_total(entries[0].0, key);
        assert forall|k: int| 0 <= k < tail.len() implies text_before(entries[0].0, #[trigger] tail[k].0) by {
            if tail[k].0 != key {
                let j = choose|j: int| 0 <= j < rest.len() && rest[j].0 == tail[k].0;
                assert(rest[j] == entries[j + 1]);
            }
        }
        assert forall|i: int, j: int| 0 <= i < j < result.len() implies text_before(#[trigger] result[i].0, #[trigger] result[j].0) by {
            if i == 0 {
                assert(result[j] == tail[j - 1]);
            } else {
                assert(result[i] == tail[i - 1]);
                assert(result[j] == tail[j - 1]);
            }
        }
        assert forall|i: int| 0 <= i < result.len() implies #[trigger] result[i].0 == key || exists|j: int|
            0 <= j < entries.len() && entries[j].0 == result[i].0 by {
            if i == 0 {
                assert(entries[0].0 == result[0].0);
            } else {
                assert(result[i] == tail[i - 1]);
                if tail[i - 1].0 != key {
                    let j = choose|j: int| 0 <= j < rest.len() && rest[j].0 == tail[i - 1].0;
                    assert(entries[j + 1].0 == result[i].0);
                }
            }
        }
    }
}

/// A form's object names each field once, in increasing order of names,
/// as a sorted map does, whatever order the fields come in.
pub proof fn law_form_object_names_increase(entries: Seq<(Seq<char>, ValueModel)>)
    ensures
        names_increasing(object_of(entries)),
    decreases entries.len(),
{
    if entries.len() > 0 {
        law_form_object_names_increase(entries.drop_last());
        lemma_object_insert_sorted(object_of(entries.drop_last()), entries.last().0, entries.last().1);
    }
}

/// Set `key` to `value` in a sorted object.
fn insert_entry(entries: &mut Vec<(String, Value)>, key: String, value: Value)
    ensures
        fields_model(final(entries)@) == object_insert(fields_model(old(entries)@), key@, value@),
{
    proof {
        lemma_fields_model_len(entries@);
    }
    let ghost start = fields_model(entries@);
    let mut i: usize = 0;
    assert(start.subrange(0, start.len() as int) =~= start);
    assert(start.subrange(0, 0) =~= Seq::<(Seq<char>, ValueModel)>::empty());
    while i < entries.len()
        invariant
            i <= entries@.len(),
            entries@ == old(entries)@,
            start == fields_model(entries@),
            start.len() == entries@.len(),
            forall|k: int| 0 <= k < entries@.len() ==> #[trigger] start[k] == (entries@[k].0@, entries@[k].1@),
            object_insert(start, key@, value@) == start.subrange(0, i as int) + object_insert(start.subrange(i as int, start.len() as int), key@, value@),
        decreases entries@.len() - i,
    {
        let ghost rest = start.subrange(i as int, start.len() as int);
        if entries[i].0 == key {
            let ghost value_view = value@;
            let entry = (key, value);
            entries.set(i, entry);
            proof {
                lemma_fields_model_len(entries@);
                assert(fields_model(entries@) =~= start.update(i as int, (entries@[i as int].0@, value_view)));
                assert(object_insert(rest, key@, value_view) =~= rest.update(0, (key@, value_view)));
                assert(start.subrange(0, i as int) + rest.update(0, (key@, value_view)) =~= start.update(i as int, (key@, value_view)));
            }
            return;
        }
        if is_text_before(key.as_str(), entries[i].0.as_str()) {
            let ghost key_view = key@;
            let ghost value_view = value@;
            entries.insert(i, (key, value));
            proof {
                lemma_fields_model_len(entries@);
                assert(fields_model(entries@) =~= start.subrange(0, i as int) + seq![(key_view, value_view)] + rest);
            }
            return;
        }
        assert(rest.drop_first() =~= start.subrange(i + 1, start.len() as int));
        assert(start.subrange(0, i as int) + (seq![rest[0]] + object_insert(rest.drop_first(), key@, value@)) =~= start.subrange(0, i + 1) + object_insert(start.subrange(i + 1, start.len() as int), key@, value@));
        i += 1;
    }
    let ghost key_view = key@;
    let ghost value_view = value@;
    entries.push((key, value));
    proof {
        lemma_fields_model_len(entries@);
        assert(start.subrange(start.len() as int, start.len() as int) =~= Seq::<(Seq<char>, ValueModel)>::empty());
        assert(start.subrange(0, start.len() as int) =~= start);
        assert(fields_model(entries@) =~= start + seq![(key_view, value_view)]);
    }
}

/// Whether `view` is the line naming field `index`: a marker, `> ` when it
/// is the active field, then its name, picked out when active.
pub open spec fn field_line(view: View, name: Seq<char>, index: int, active_index: int) -> bool {
    let active = index == active_index;
    view matches View::Line(spans) && spans@.len() == 2 && spans@[0].text@ == (if active {
        "> "@
    } else {
        "  "@
    }) && spans@[0].role == Role::Dim && spans@[1].text@ == name && spans@[1].role == (if active {
        Role::Selected
    } else {
        Role::Dim
    })
}

/// A named field of a form.
pub struct FormField {
    pub name: String,
    pub widget: Box<dyn Widget>,
    /// The identity, the value and the answers to events of the widget
    /// when it joined the form.
    joined: Ghost<(Seq<char>, Option<ValueModel>, spec_fn(Event, Seq<ListPresentation>, Reaction) -> bool)>,
}

/// A form of named fields.
pub struct Form {
    id: WidgetId,
    fields: Vec<FormField>,
    active: usize,
}

impl Form {
    pub closed spec fn identity_text(&self) -> Seq<char> {
        self.id@
    }

    pub closed spec fn field_count(&self) -> nat {
        self.fields@.len()
    }

    pub closed spec fn active_field(&self) -> nat {
        self.active as nat
    }

    /// The name of field `i`.
    /// Whether `view` is how field `i`'s widget shows itself in `cx`.
    pub closed spec fn field_shows(&self, i: int, cx: ViewContext, view: View) -> bool {
        self.fields@[i].widget.shows(cx, view)
    }

    pub closed spec fn field_name(&self, i: int) -> Seq<char> {
        self.fields@[i].name@
    }

    /// The identity of the widget of field `i`.
    pub closed spec fn field_identity(&self, i: int) -> Seq<char> {
        self.fields@[i].widget.identity()
    }

    /// The identity of the widget of field `i` when it joined the form.
    pub closed spec fn joined_identity(&self, i: int) -> Seq<char> {
        self.fields@[i].joined@.0
    }

    /// The value the widget of field `i` held when it joined the form.
    pub closed spec fn joined_value(&self, i: int) -> Option<ValueModel> {
        self.fields@[i].joined@.1
    }

    /// Whether the widget of field `i`, as it joined the form, answers an
    /// event with a reaction, as its `reacts` says.
    pub closed spec fn joined_reacts(&self, i: int, event: Event, layout: Seq<ListPresentation>, reaction: Reaction) -> bool {
        (self.fields@[i].joined@.2)(event, layout, reaction)
    }

    /// The value the widget of field `i` holds, `Null` when none.
    pub closed spec fn field_value(&self, i: int) -> ValueModel {
        match self.fields@[i].widget.held_value() {
            Some(v) => v,
            None => ValueModel::Null,
        }
    }

    /// The entries of the form's object, field by field.
    pub open spec fn entries(&self) -> Seq<(Seq<char>, ValueModel)> {
        Seq::new(self.field_count(), |i: int| (self.field_name(i), self.field_value(i)))
    }

    /// An empty form.
    pub fn new<T: IntoText>(id: T) -> (form: Self)
        ensures
            form.identity_text() == id.text_chars(),
            form.field_count() == 0,
            form.active_field() == 0,
    {
        Form { id: WidgetId::owned(id), fields: Vec::new(), active: 0 }
    }

    pub fn with_field<T: IntoText, W: Widget + 'static>(self, name: T, widget: W) -> (form: Self)
        ensures
            form.field_count() == self.field_count() + 1,
            form.field_name(self.field_count() as int) == name.text_chars(),
            form.identity_text() == self.identity_text(),
            form.joined_identity(self.field_count() as int) == widget.identity(),
            form.joined_value(self.field_count() as int) == widget.held_value(),
    {
        let mut form = self;
        form.push_field(name, widget);
        form
    }

    /// Add a field at the end; the active field stays where it was.
    pub fn push_field<T: IntoText, W: Widget + 'static>(&mut self, name: T, widget: W)
        ensures
            final(self).field_count() == old(self).field_count() + 1,
            final(self).field_name(old(self).field_count() as int) == name.text_chars(),
            forall|i: int| 0 <= i < old(self).field_count() ==> #[trigger] final(self).field_name(i) == old(self).field_name(i),
            final(self).active_field() == if old(self).active_field() < old(self).field_count() {
                old(self).active_field()
            } else {
                old(self).field_count()
            },
            final(self).identity_text() == old(self).identity_text(),
            final(self).joined_identity(old(self).field_count() as int) == widget.identity(),
            final(self).joined_value(old(self).field_count() as int) == widget.held_value(),
            forall|e: Event, l: Seq<ListPresentation>, r: Reaction|
                #[trigger] final(self).joined_reacts(old(self).field_count() as int, e, l, r) == widget.reacts(e, l, r),
            forall|i: int|
                0 <= i < old(self).field_count() ==> #[trigger] final(self).joined_identity(i) == old(self).joined_identity(i)
                    && final(self).joined_value(i) == old(self).joined_value(i),
            forall|i: int, e: Event, l: Seq<ListPresentation>, r: Reaction|
                0 <= i < old(self).field_count() ==> #[trigger] final(self).joined_reacts(i, e, l, r) == old(self).joined_reacts(i, e, l, r),
    {
        let ghost joined = (
            widget.identity(),
            widget.held_value(),
            |e: Event, l: Seq<ListPresentation>, r: Reaction| widget.reacts(e, l, r),
        );
        let boxed: Box<dyn Widget> = Box::new(widget);
        let field = FormField { name: name.into_text(), widget: boxed, joined: Ghost(joined) };
        let mut fields: Vec<FormField> = Vec::new();
        std::mem::swap(&mut fields, &mut self.fields);
        let last = fields.len();
        let ghost before = fields@;
        proof {
            // The sequence laws are stated here for a field type that holds a
            // trait object.
            vstd::seq::axiom_seq_push_len(before, field);
            vstd::seq::axiom_seq_push_index_same(before, field, before.len() as int);
            assert forall|i: int| 0 <= i < before.len() implies #[trigger] before.push(field)[i] == before[i] by {
                vstd::seq::axiom_seq_push_index_different(before, field, i);
            }
        }
        fields.push(field);
        self.fields = fields;
        if self.active > last {
            self.active = last;
        }
    }

    pub fn len(&self) -> (count: usize)
        ensures
            count == self.field_count(),
    {
        self.fields.len()
    }

    pub fn is_empty(&self) -> (empty: bool)
        ensures
            empty == (self.field_count() == 0),
    {
        self.fields.len() == 0
    }

    pub fn active_index(&self) -> (active: usize)
        ensures
            active == self.active_field(),
    {
        self.active
    }

    pub fn active_widget_id(&self) -> (id: Option<WidgetId>)
        ensures
            self.active_field() < self.field_count() ==> (id matches Some(w) && w@ == self.field_identity(self.active_field() as int)),
            self.active_field() >= self.field_count() ==> id is None,
    {
        if self.active < self.fields.len() {
            Some(self.fields[self.active].widget.id())
        } else {
            None
        }
    }

    /// The reaction to a focus move: focus on the active field's widget.
    fn focus_reaction(&self) -> (reaction: Reaction)
        ensures
            self.active_field() < self.field_count() ==> (reaction matches Reaction::Focus(FocusTarget::Widget(w)) && w@
                == self.field_identity(self.active_field() as int)),
            self.active_field() >= self.field_count() ==> reaction is Changed,
    {
        match self.active_widget_id() {
            Some(id) => Reaction::Focus(FocusTarget::Widget(id)),
            None => Reaction::Changed,
        }
    }

    /// Make field `active` active, or the last field past the end.
    pub fn set_active_index(&mut self, active: usize) -> (reaction: Reaction)
        ensures
            old(self).field_count() == 0 ==> reaction is Ignored && final(self).active_field() == 0,
            old(self).field_count() > 0 ==> {
                let target = if active < old(self).field_count() {
                    active as int
                } else {
                    old(self).field_count() - 1
                };
                if target == old(self).active_field() {
                    reaction is Ignored && final(self).active_field() == old(self).active_field()
                } else {
                    final(self).active_field() == target && (reaction matches Reaction::Focus(FocusTarget::Widget(w))
                        && w@ == old(self).field_identity(target))
                }
            },
            final(self).field_count() == old(self).field_count(),
            forall|i: int| 0 <= i < old(self).field_count() ==> #[trigger] final(self).field_name(i) == old(self).field_name(i)
                && final(self).field_identity(i) == old(self).field_identity(i) && final(self).field_value(i) == old(self).field_value(i),
            final(self).identity_text() == old(self).identity_text(),
    {
        if self.fields.len() == 0 {
            self.active = 0;
            return Reaction::Ignored;
        }
        let target = if active < self.fields.len() {
            active
        } else {
            self.fields.len() - 1
        };
        if target == self.active {
            return Reaction::Ignored;
        }
        self.active = target;
        self.focus_reaction()
    }

    fn move_focus(&mut self, delta: isize) -> (reaction: Reaction)
        ensures
            final(self).field_count() == old(self).field_count(),
            forall|i: int| 0 <= i < old(self).field_count() ==> #[trigger] final(self).field_name(i) == old(self).field_name(i)
                && final(self).field_identity(i) == old(self).field_identity(i) && final(self).field_value(i) == old(self).field_value(i),
            final(self).identity_text() == old(self).identity_text(),
            old(self).field_count() == 0 ==> reaction is Ignored,
            old(self).field_count() > 0 ==> {
                let raw = old(self).active_field() + delta;
                let target = if raw < 0 {
                    0
                } else if raw > old(self).field_count() - 1 {
                    old(self).field_count() - 1
                } else {
                    raw
                };
                if target == old(self).active_field() {
                    reaction is Ignored && final(self).active_field() == old(self).active_field()
                } else {
                    final(self).active_field() == target && (reaction matches Reaction::Focus(FocusTarget::Widget(w))
                        && w@ == old(self).field_identity(target))
                }
            },
    {
        if self.fields.len() == 0 {
            return Reaction::Ignored;
        }
        let len = self.fields.len();
        let target: i128 = self.active as i128 + delta as i128;
        let next: usize = if target < 0 {
            0
        } else if target > (len - 1) as i128 {
            len - 1
        } else {
            target as usize
        };
        self.set_active_index(next)
    }

    /// The form's object: each field's value under its name, `Null` for a
    /// field holding none.
    pub fn object_value(&self) -> (object: Value)
        ensures
            object@ == ValueModel::Object(object_of(self.entries())),
    {
        let mut entries: Vec<(String, Value)> = Vec::new();
        let mut i: usize = 0;
        while i < self.fields.len()
            invariant
                i <= self.fields@.len(),
                fields_model(entries@) == object_of(self.entries().subrange(0, i as int)),
            decreases self.fields@.len() - i,
        {
            let value = match self.fields[i].widget.current_value() {
                Some(value) => value,
                None => Value::Null,
            };
            let name = self.fields[i].name.clone();
            proof {
                assert(self.entries().subrange(0, i + 1).drop_last() =~= self.entries().subrange(0, i as int));
                assert(self.entries()[i as int] == (name@, value@));
            }
            insert_entry(&mut entries, name, value);
            i += 1;
        }
        assert(self.entries().subrange(0, self.fields@.len() as int) =~= self.entries());
        Value::Object(entries)
    }

    fn submit_or_advance(&mut self) -> (reaction: Reaction)
        ensures
            final(self).field_count() == old(self).field_count(),
            old(self).field_count() == 0 || old(self).active_field() + 1 == old(self).field_count() ==> (reaction matches Reaction::Submit(v)
                && v@ == ValueModel::Object(object_of(old(self).entries()))),
    {
        if self.fields.len() == 0 || self.active == self.fields.len() - 1 {
            return Reaction::Submit(self.object_value());
        }
        self.move_focus(1)
    }

    /// The index of the field whose widget has identity `id`.
    fn position_of_widget(&self, id: &WidgetId) -> (found: Option<usize>)
        ensures
            found matches Some(i) ==> i < self.field_count() && self.field_identity(i as int) == id@,
            found is None ==> forall|i: int| 0 <= i < self.field_count() ==> #[trigger] self.field_identity(i) != id@,
    {
        let mut i: usize = 0;
        while i < self.fields.len()
            invariant
                i <= self.fields@.len(),
                forall|k: int| 0 <= k < i ==> #[trigger] self.fields@[k].widget.identity() != id@,
            decreases self.fields@.len() - i,
        {
            let candidate = self.fields[i].widget.id();
            if candidate == *id {
                return Some(i);
            }
            i += 1;
        }
        None
    }
}

impl Widget for Form {
    open spec fn identity(&self) -> Seq<char> {
        self.identity_text()
    }

    open spec fn held_value(&self) -> Option<ValueModel> {
        Some(ValueModel::Object(object_of(self.entries())))
    }

    /// Nothing is stated here of the value held after an event.
    open spec fn holds_after(&self, event: Event, layout: Seq<ListPresentation>, value: Option<ValueModel>) -> bool {
        true
    }

    open spec fn reacts(&self, event: Event, layout: Seq<ListPresentation>, reaction: Reaction) -> bool {
        &&& (event matches Event::Key(k) && k.key == Key::Esc) ==> reaction is Cancel
        &&& (event matches Event::Key(k) && k.key == Key::Enter) && self.active_field() >= self.field_count() ==> (
        reaction matches Reaction::Submit(v) && v@ == ValueModel::Object(object_of(self.entries())))
    }

    fn id(&self) -> (id: WidgetId) {
        self.id.clone()
    }

    /// Tab and Backtab move the focus and Esc cancels; other events go to the
    /// active field, whose submit advances to the next field or submits the
    /// form from the last one, and whose focus requests move the focus.
    fn handle(&mut self, event: Event, cx: &mut Context) -> (reaction: Reaction)
        ensures
            final(self).field_count() == old(self).field_count(),
            (event matches Event::Key(k) && k.key == Key::Esc) ==> reaction is Cancel,
            (event matches Event::Key(k) && k.key == Key::Enter) && old(self).active_field() >= old(self).field_count()
                ==> (reaction matches Reaction::Submit(v) && v@ == ValueModel::Object(object_of(old(self).entries()))),
            (event matches Event::Key(k) && k.key == Key::Tab) && old(self).field_count() > 0 ==> final(self).active_field()
                == if old(self).active_field() + 1 > old(self).field_count() - 1 {
                old(self).field_count() - 1
            } else {
                old(self).active_field() + 1int
            },
            (event matches Event::Key(k) && k.key == Key::Backtab) && old(self).field_count() > 0
                ==> final(self).active_field() == if old(self).active_field() - 1 < 0 {
                0int
            } else if old(self).active_field() - 1 > old(self).field_count() - 1 {
                old(self).field_count() - 1
            } else {
                old(self).active_field() - 1
            },
    {
        match &event {
            Event::Key(key) => match key.key {
                Key::Tab => return self.move_focus(1),
                Key::Backtab => return self.move_focus(-1),
                Key::Esc => return Reaction::Cancel,
                _ => {},
            },
            _ => {},
        }
        if self.active >= self.fields.len() {
            return match event {
                Event::Key(key) => if key.key == Key::Enter {
                    Reaction::Submit(self.object_value())
                } else {
                    Reaction::Ignored
                },
                _ => Reaction::Ignored,
            };
        }
        let active = self.active;
        let mut fields: Vec<FormField> = Vec::new();
        std::mem::swap(&mut fields, &mut self.fields);
        let mut field = fields.remove(active);
        let handled = field.widget.handle(event, cx);
        fields.insert(active, field);
        self.fields = fields;
        match handled {
            Reaction::Submit(_value) => self.submit_or_advance(),
            Reaction::Cancel => Reaction::Cancel,
            Reaction::Focus(FocusTarget::Next) => self.move_focus(1),
            Reaction::Focus(FocusTarget::Previous) => self.move_focus(-1),
            Reaction::Focus(FocusTarget::Widget(id)) => match self.position_of_widget(&id) {
                Some(index) => self.set_active_index(index),
                None => Reaction::Focus(FocusTarget::Widget(id)),
            },
            Reaction::Changed => Reaction::Changed,
            Reaction::Ignored => Reaction::Ignored,
        }
    }

    /// For each field, a line naming it, marked when active, then the
    /// field's own view; a help line closes a form with fields.
    open spec fn shows(&self, cx: ViewContext, view: View) -> bool {
        view matches View::Stack(children) && {
            &&& children@.len() == 2 * self.field_count() + if self.field_count() > 0 { 1int } else { 0 }
            &&& forall|i: int| 0 <= i < self.field_count() ==> #[trigger] field_line(
                children@[2 * i],
                self.field_name(i),
                i,
                self.active_field() as int,
            )
            &&& forall|i: int|
                0 <= i < self.field_count() ==> #[trigger] self.field_shows(i, cx, children@[2 * i + 1])
            &&& self.field_count() > 0 ==> (children@.last() matches View::Line(help) && help@.len() == 1
                && help@[0].text@ == "tab next | shift-tab previous | enter accept | esc cancel"@
                && help@[0].role == Role::Dim)
        }
    }

    fn view(&self, cx: &ViewContext) -> (view: View) {
        let mut views: Vec<View> = Vec::new();
        let mut i: usize = 0;
        while i < self.fields.len()
            invariant
                i <= self.fields@.len(),
                views@.len() == 2 * i,
                forall|k: int| 0 <= k < i ==> #[trigger] field_line(views@[2 * k], self.field_name(k), k, self.active_field() as int),
                forall|k: int| 0 <= k < i ==> #[trigger] self.field_shows(k, *cx, views@[2 * k + 1]),
            decreases self.fields@.len() - i,
        {
            let active = i == self.active;
            let mut line: Vec<Span> = Vec::new();
            line.push(Span::new(if active {
                "> "
            } else {
                "  "
            }, Role::Dim));
            line.push(Span::new(self.fields[i].name.clone(), if active {
                Role::Selected
            } else {
                Role::Dim
            }));
            let ghost before = views@;
            views.push(View::Line(line));
            views.push(self.fields[i].widget.view(cx));
            proof {
                assert forall|k: int| 0 <= k < i + 1 implies #[trigger] self.field_shows(k, *cx, views@[2 * k + 1]) by {
                    if k < i {
                        assert(views@[2 * k + 1] == before[2 * k + 1]);
                    }
                }
                assert forall|k: int| 0 <= k < i + 1 implies #[trigger] field_line(
                    views@[2 * k],
                    self.field_name(k),
                    k,
                    self.active_field() as int,
                ) by {
                    if k < i {
                        assert(views@[2 * k] == before[2 * k]);
                    }
                }
            }
            i += 1;
        }
        if self.fields.len() > 0 {
            let mut help: Vec<Span> = Vec::new();
            help.push(Span::new("tab next | shift-tab previous | enter accept | esc cancel", Role::Dim));
            views.push(View::Line(help));
        }
        View::Stack(views)
    }

    fn current_value(&self) -> (value: Option<Value>) {
        Some(self.object_value())
    }
}

} // verus!
