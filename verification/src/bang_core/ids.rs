//! Stable identities for widgets, views and cursor anchors.

use vstd::prelude::*;

use crate::text::IntoText;

verus! {

/// Identity of a widget.
#[derive(Debug, Hash, PartialOrd, Ord)]
pub struct WidgetId(String);

/// Identity of a rendered view.
#[derive(Debug, Hash, PartialOrd, Ord)]
pub struct ViewId(String);

/// Identity of a cursor anchor inside a rendered view.
#[derive(Debug, Hash, PartialOrd, Ord)]
pub struct CursorAnchor(String);

impl View for WidgetId {
    type V = Seq<char>;

    closed spec fn view(&self) -> Seq<char> {
        self.0@
    }
}

impl View for ViewId {
    type V = Seq<char>;

    closed spec fn view(&self) -> Seq<char> {
        self.0@
    }
}

impl View for CursorAnchor {
    type V = Seq<char>;

    closed spec fn view(&self) -> Seq<char> {
        self.0@
    }
}

impl WidgetId {
    pub fn borrowed(value: &'static str) -> (id: Self)
        ensures
            id@ == value@,
    {
        WidgetId(value.to_owned())
    }

    pub fn owned<T: IntoText>(value: T) -> (id: Self)
        ensures
            id@ == value.text_chars(),
    {
        WidgetId(value.into_text())
    }

    pub fn as_str(&self) -> (text: &str)
        ensures
            text@ == self@,
    {
        self.0.as_str()
    }
}

impl ViewId {
    pub fn borrowed(value: &'static str) -> (id: Self)
        ensures
            id@ == value@,
    {
        ViewId(value.to_owned())
    }

    pub fn owned<T: IntoText>(value: T) -> (id: Self)
        ensures
            id@ == value.text_chars(),
    {
        ViewId(value.into_text())
    }

    pub fn as_str(&self) -> (text: &str)
        ensures
            text@ == self@,
    {
        self.0.as_str()
    }
}

impl CursorAnchor {
    pub fn borrowed(value: &'static str) -> (id: Self)
        ensures
            id@ == value@,
    {
        CursorAnchor(value.to_owned())
    }

    pub fn owned<T: IntoText>(value: T) -> (id: Self)
        ensures
            id@ == value.text_chars(),
    {
        CursorAnchor(value.into_text())
    }

    pub fn as_str(&self) -> (text: &str)
        ensures
            text@ == self@,
    {
        self.0.as_str()
    }
}

impl Clone for WidgetId {
    fn clone(&self) -> (copy: Self)
        ensures
            copy == *self,
    {
        WidgetId(self.0.clone())
    }
}

impl Clone for ViewId {
    fn clone(&self) -> (copy: Self)
        ensures
            copy == *self,
    {
        ViewId(self.0.clone())
    }
}

impl Clone for CursorAnchor {
    fn clone(&self) -> (copy: Self)
        ensures
            copy == *self,
    {
        CursorAnchor(self.0.clone())
    }
}

impl PartialEq for WidgetId {
    fn eq(&self, other: &Self) -> (same: bool) {
        self.0 == other.0
    }
}

impl vstd::std_specs::cmp::PartialEqSpecImpl for WidgetId {
    open spec fn obeys_eq_spec() -> bool {
        true
    }

    open spec fn eq_spec(&self, other: &WidgetId) -> bool {
        self@ == other@
    }
}

impl Eq for WidgetId {}

impl PartialEq for ViewId {
    fn eq(&self, other: &Self) -> (same: bool) {
        self.0 == other.0
    }
}

impl vstd::std_specs::cmp::PartialEqSpecImpl for ViewId {
    open spec fn obeys_eq_spec() -> bool {
        true
    }

    open spec fn eq_spec(&self, other: &ViewId) -> bool {
        self@ == other@
    }
}

impl Eq for ViewId {}

impl PartialEq for CursorAnchor {
    fn eq(&self, other: &Self) -> (same: bool) {
        self.0 == other.0
    }
}

impl vstd::std_specs::cmp::PartialEqSpecImpl for CursorAnchor {
    open spec fn obeys_eq_spec() -> bool {
        true
    }

    open spec fn eq_spec(&self, other: &CursorAnchor) -> bool {
        self@ == other@
    }
}

impl Eq for CursorAnchor {}

} // verus!
