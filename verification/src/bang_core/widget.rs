//! What a widget is, what handling an event gives back, and the context a
//! widget sees while it handles one.

use vstd::prelude::*;
use vstd::view::View as _;

use crate::bang_core::event::Event;
use crate::bang_core::ids::{ViewId, WidgetId};
use crate::bang_core::render::{ListPresentation, Presentation, View, ViewContext};
use crate::bang_core::value::{Value, ValueModel};

verus! {

/// Where a widget asks the focus to go.
#[derive(Debug)]
pub enum FocusTarget {
    Widget(WidgetId),
    Next,
    Previous,
}

impl Clone for FocusTarget {
    fn clone(&self) -> (copy: Self)
        ensures
            copy == *self,
    {
        match self {
            FocusTarget::Widget(id) => FocusTarget::Widget(id.clone()),
            FocusTarget::Next => FocusTarget::Next,
            FocusTarget::Previous => FocusTarget::Previous,
        }
    }
}

/// Whether two focus targets name the same place.
pub open spec fn same_focus(a: FocusTarget, b: FocusTarget) -> bool {
    match (a, b) {
        (FocusTarget::Widget(x), FocusTarget::Widget(y)) => x@ == y@,
        (FocusTarget::Next, FocusTarget::Next) => true,
        (FocusTarget::Previous, FocusTarget::Previous) => true,
        _ => false,
    }
}

impl PartialEq for FocusTarget {
    fn eq(&self, other: &Self) -> (same: bool) {
        match (self, other) {
            (FocusTarget::Widget(x), FocusTarget::Widget(y)) => *x == *y,
            (FocusTarget::Next, FocusTarget::Next) => true,
            (FocusTarget::Previous, FocusTarget::Previous) => true,
            _ => false,
        }
    }
}

impl vstd::std_specs::cmp::PartialEqSpecImpl for FocusTarget {
    open spec fn obeys_eq_spec() -> bool {
        true
    }

    open spec fn eq_spec(&self, other: &FocusTarget) -> bool {
        same_focus(*self, *other)
    }
}

impl Eq for FocusTarget {}

/// What handling an event did.
#[derive(Debug)]
pub enum Reaction {
    Ignored,
    Changed,
    Submit(Value),
    Cancel,
    Focus(FocusTarget),
}

/// Whether two reactions are the same.
pub open spec fn same_reaction(a: Reaction, b: Reaction) -> bool {
    match (a, b) {
        (Reaction::Ignored, Reaction::Ignored) => true,
        (Reaction::Changed, Reaction::Changed) => true,
        (Reaction::Submit(x), Reaction::Submit(y)) => x@ == y@,
        (Reaction::Cancel, Reaction::Cancel) => true,
        (Reaction::Focus(x), Reaction::Focus(y)) => same_focus(x, y),
        _ => false,
    }
}

impl PartialEq for Reaction {
    fn eq(&self, other: &Self) -> (same: bool) {
        match (self, other) {
            (Reaction::Ignored, Reaction::Ignored) => true,
            (Reaction::Changed, Reaction::Changed) => true,
            (Reaction::Submit(x), Reaction::Submit(y)) => *x == *y,
            (Reaction::Cancel, Reaction::Cancel) => true,
            (Reaction::Focus(x), Reaction::Focus(y)) => *x == *y,
            _ => false,
        }
    }
}

impl vstd::std_specs::cmp::PartialEqSpecImpl for Reaction {
    open spec fn obeys_eq_spec() -> bool {
        true
    }

    open spec fn eq_spec(&self, other: &Reaction) -> bool {
        same_reaction(*self, *other)
    }
}

impl Reaction {
    /// Whether the reaction changed anything: all but `Ignored`.
    pub fn changed(self) -> (changed: bool)
        ensures
            changed == !(self is Ignored),
    {
        match self {
            Reaction::Ignored => false,
            _ => true,
        }
    }
}

/// The context of a handled event: a focus request, and what the renderer
/// last reported of the view's layout.
#[derive(Debug)]
pub struct Context {
    focus: Option<FocusTarget>,
    presentation: Presentation,
}

impl Context {
    /// The focus that was requested while handling the event.
    pub closed spec fn requested_focus(&self) -> Option<FocusTarget> {
        self.focus
    }

    /// The layout feedback the context carries.
    pub closed spec fn lists(&self) -> Seq<ListPresentation> {
        self.presentation.lists@
    }

    pub fn new() -> (context: Self)
        ensures
            context.requested_focus() is None,
            context.lists().len() == 0,
    {
        Context { focus: None, presentation: Presentation { lists: Vec::new() } }
    }

    pub fn with_presentation(presentation: Presentation) -> (context: Self)
        ensures
            context.requested_focus() is None,
            context.lists() == presentation.lists@,
    {
        Context { focus: None, presentation }
    }

    /// The layout the context was made with, handed back.
    pub fn into_presentation(self) -> (presentation: Presentation)
        ensures
            presentation.lists@ == self.lists(),
    {
        self.presentation
    }

    /// Ask for the focus to move to `target`; a later request replaces it.
    pub fn request_focus(&mut self, target: FocusTarget)
        ensures
            final(self).requested_focus() == Some(target),
            final(self).lists() == old(self).lists(),
    {
        self.focus = Some(target);
    }

    /// The requested focus, which leaves the context.
    pub fn take_focus(&mut self) -> (target: Option<FocusTarget>)
        ensures
            target == old(self).requested_focus(),
            final(self).requested_focus() is None,
            final(self).lists() == old(self).lists(),
    {
        self.focus.take()
    }

    /// The layout the renderer reported for the list `id`: the first report
    /// under that identity.
    pub fn list_presentation(&self, id: &ViewId) -> (found: Option<&ListPresentation>)
        ensures
            match found {
                Some(list) => exists|i: int|
                    0 <= i < self.lists().len() && self.lists()[i] == *list && #[trigger] self.lists()[i].id@ == id@
                        && forall|j: int| 0 <= j < i ==> #[trigger] self.lists()[j].id@ != id@,
                None => forall|j: int| 0 <= j < self.lists().len() ==> #[trigger] self.lists()[j].id@ != id@,
            },
    {
        self.presentation.list(id)
    }
}

impl Default for Context {
    fn default() -> (context: Self)
        ensures
            context.requested_focus() is None,
            context.lists().len() == 0,
    {
        Context::new()
    }
}

/// A widget: state that handles events, describes its view and may hold a
/// value.
pub trait Widget {
    /// The identity of the widget.
    spec fn identity(&self) -> Seq<char>;

    /// The value the widget would submit now, if any.
    spec fn held_value(&self) -> Option<ValueModel>;

    fn id(&self) -> (id: WidgetId)
        ensures
            id@ == self.identity(),
    ;

    /// Whether `reaction` is how the widget in this state answers `event`,
    /// with `layout` the renderer's last report of its lists.
    spec fn reacts(&self, event: Event, layout: Seq<ListPresentation>, reaction: Reaction) -> bool;

    /// Whether `value` may be what the widget holds once it has answered
    /// `event`, with `layout` the renderer's last report of its lists.
    spec fn holds_after(&self, event: Event, layout: Seq<ListPresentation>, value: Option<ValueModel>) -> bool;

    fn handle(&mut self, event: Event, cx: &mut Context) -> (reaction: Reaction)
        ensures
            old(self).reacts(event, old(cx).lists(), reaction),
            old(self).holds_after(event, old(cx).lists(), final(self).held_value()),
            final(cx).lists() == old(cx).lists(),
    ;

    /// Whether `view` is how the widget in this state shows itself in
    /// `cx`.
    spec fn shows(&self, cx: ViewContext, view: View) -> bool;

    fn view(&self, cx: &ViewContext) -> (view: View)
        ensures
            self.shows(*cx, view),
    ;

    fn current_value(&self) -> (value: Option<Value>)
        ensures
            match value {
                Some(v) => self.held_value() == Some(v@),
                None => self.held_value() is None,
            },
    ;
}

} // verus!
