//! Single- and multiple-choice lists: a selection that moves through the
//! items inside a window of visible rows.

use vstd::prelude::*;
use vstd::view::View as _;

use crate::bang_core::event::{Event, Key, KeyEvent, Modifiers};
use crate::bang_core::ids::{ViewId, WidgetId};
use crate::bang_core::navigation::{
    move_index, moved_index, no_modifiers, scroll_window, visible_delta, window_top,
};
use crate::bang_core::render::{ListPresentation, ListRow, ListView, Role, Span, View, ViewContext};
use crate::bang_core::value::{list_model, Value, ValueModel};
use crate::bang_core::widget::{Context, Reaction, Widget};
use crate::text::{push_decimal, push_str, IntoText};

verus! {

/// The number of rows a list shows when nothing else is asked.
pub const DEFAULT_PAGE_SIZE: usize = 9;

/// Whether a list row shows `item`: its label alone, picked out when
/// selected, with the check mark given.
pub open spec fn shown_row(row: ListRow, item: SelectItem, selected: bool, mark: Option<bool>) -> bool {
    &&& row.spans@.len() == 1
    &&& row.spans@[0].text@ == item.label@
    &&& row.spans@[0].role == (if selected {
        Role::Selected
    } else {
        Role::Normal
    })
    &&& row.selected == selected
    &&& row.checked == mark
}

/// A labelled choice and the value it submits.
#[derive(Debug)]
pub struct SelectItem {
    pub label: String,
    pub value: Value,
}

impl Clone for SelectItem {
    fn clone(&self) -> (copy: Self)
        ensures
            copy.label@ == self.label@,
            copy.value@ == self.value@,
    {
        SelectItem { label: self.label.clone(), value: self.value.clone() }
    }
}

impl SelectItem {
    pub fn new<T: IntoText>(label: T, value: Value) -> (item: Self)
        ensures
            item.label@ == label.text_chars(),
            item.value == value,
    {
        SelectItem { label: label.into_text(), value }
    }

    /// A choice whose value is its label.
    pub fn labelled(label: &str) -> (item: Self)
        ensures
            item.label@ == label@,
            item.value@ == ValueModel::Text(label@),
    {
        SelectItem { label: label.to_owned(), value: Value::String(label.to_owned()) }
    }
}

/// The number of rows a list of `len` items shows with `page_size`: at
/// least one.
pub open spec fn visible_rows(page_size: int, len: int) -> int {
    let shown = if page_size < len {
        page_size
    } else {
        len
    };
    if shown < 1 {
        1
    } else {
        shown
    }
}

/// A page of rows as a move: the visible rows, capped at `isize::MAX`.
pub open spec fn page_step(visible: int) -> int {
    if visible <= isize::MAX {
        visible
    } else {
        isize::MAX as int
    }
}

/// What a key asks of a list.
pub enum ListIntent {
    /// Move the selection by a number of rows.
    Move(int),
    /// Move the selection to a row.
    MoveTo(int),
    Submit,
    Cancel,
    Ignore,
}

/// The intent of a key on a list of `len` items showing `visible` rows:
/// arrows and `k`/`j` move by one, pages by the visible rows, Home and End
/// to the ends, Enter submits and Esc cancels.
pub open spec fn list_intent(key: KeyEvent, len: int, visible: int) -> ListIntent {
    let plain = key.modifiers.0 == 0;
    match key.key {
        Key::Up => ListIntent::Move(-1),
        Key::Down => ListIntent::Move(1),
        Key::Home => ListIntent::MoveTo(0),
        Key::End => ListIntent::MoveTo(if len > 0 { len - 1 } else { 0 }),
        Key::PageUp => ListIntent::Move(-page_step(visible)),
        Key::PageDown => ListIntent::Move(page_step(visible)),
        Key::Char(c) => if plain && (c == 'k' || c == 'K') {
            ListIntent::Move(-1)
        } else if plain && (c == 'j' || c == 'J') {
            ListIntent::Move(1)
        } else {
            ListIntent::Ignore
        },
        Key::Enter => ListIntent::Submit,
        Key::Esc => ListIntent::Cancel,
        _ => ListIntent::Ignore,
    }
}

/// Where a list key takes a selection at row `at` of `len` rows.
pub open spec fn list_key_target(key: Key, at: int, len: int, visible: int, wrap: bool) -> Option<int> {
    match list_intent(KeyEvent { key, modifiers: Modifiers(0) }, len, visible) {
        ListIntent::Move(delta) => moved_index(at, len, delta, wrap),
        ListIntent::MoveTo(target) => Some(if target < len { target } else { len - 1 }),
        _ => None,
    }
}

/// The list keys: Down and `j` go to the next row and Up and `k` to the one
/// before, stopping at the ends or wrapping around when the list wraps;
/// Page Down and Page Up go a page of visible rows on or back, stopping at
/// the ends when the list does not wrap; Home goes to the first row and End
/// to the last; Enter submits and Esc cancels.
pub proof fn law_list_keys(at: int, len: int, visible: int, wrap: bool)
    requires
        0 <= at < len <= isize::MAX,
        1 <= visible <= isize::MAX,
    ensures
        ({
            let to = |key: Key| list_key_target(key, at, len, visible, wrap);
            &&& to(Key::Down) == Some(if at + 1 < len { at + 1 } else if wrap { 0 } else { at })
            &&& to(Key::Char('j')) == to(Key::Down)
            &&& to(Key::Up) == Some(if at > 0 { at - 1 } else if wrap { len - 1 } else { 0 })
            &&& to(Key::Char('k')) == to(Key::Up)
            &&& !wrap ==> to(Key::PageDown) == Some(if at + visible < len { at + visible } else { len - 1 })
            &&& !wrap ==> to(Key::PageUp) == Some(if at - visible > 0 { at - visible } else { 0 })
            &&& to(Key::Home) == Some(0int)
            &&& to(Key::End) == Some(len - 1)
            &&& list_intent(KeyEvent { key: Key::Enter, modifiers: Modifiers(0) }, len, visible) == ListIntent::Submit
            &&& list_intent(KeyEvent { key: Key::Esc, modifiers: Modifiers(0) }, len, visible) == ListIntent::Cancel
        }),
{
    assert(at + 1 < len ==> (at + 1) % len == at + 1) by (nonlinear_arith)
        requires
            0 <= at < len,
    ;
    assert(at + 1 == len ==> (at + 1) % len == 0) by (nonlinear_arith)
        requires
            0 <= at < len,
    ;
    assert(at > 0 ==> (at - 1) % len == at - 1) by (nonlinear_arith)
        requires
            0 <= at < len,
    ;
    assert(at == 0 ==> (at - 1) % len == len - 1) by (nonlinear_arith)
        requires
            0 <= at < len,
    ;
}

/// A single-choice list.
#[derive(Debug)]
pub struct Select {
    id: WidgetId,
    header: Vec<Span>,
    items: Vec<SelectItem>,
    selected: usize,
    top: usize,
    page_size: usize,
    wrap: bool,
}

impl Select {
    #[verifier::type_invariant]
    spec fn well_placed(self) -> bool {
        &&& self.page_size >= 1
        &&& self.items@.len() == 0 ==> self.selected == 0
        &&& self.items@.len() > 0 ==> self.selected < self.items@.len()
    }

    pub closed spec fn identity_text(&self) -> Seq<char> {
        self.id@
    }

    pub closed spec fn choices(&self) -> Seq<SelectItem> {
        self.items@
    }

    pub closed spec fn selection(&self) -> nat {
        self.selected as nat
    }

    pub closed spec fn window_start(&self) -> nat {
        self.top as nat
    }

    pub closed spec fn rows_per_page(&self) -> nat {
        self.page_size as nat
    }

    pub closed spec fn wraps(&self) -> bool {
        self.wrap
    }

    pub closed spec fn header_spans(&self) -> Seq<Span> {
        self.header@
    }

    /// The rows shown at a time.
    pub open spec fn visible_len(&self) -> int {
        visible_rows(self.rows_per_page() as int, self.choices().len() as int)
    }

    /// A list of `items`, the first selected, nine rows at a time, wrapping.
    pub fn new<T: IntoText>(id: T, items: Vec<SelectItem>) -> (select: Self)
        ensures
            select.identity_text() == id.text_chars(),
            select.choices() == items@,
            select.selection() == 0,
            select.window_start() == 0,
            select.rows_per_page() == DEFAULT_PAGE_SIZE,
            select.wraps(),
            select.header_spans().len() == 0,
    {
        Select {
            id: WidgetId::owned(id),
            header: Vec::new(),
            items,
            selected: 0,
            top: 0,
            page_size: DEFAULT_PAGE_SIZE,
            wrap: true,
        }
    }

    /// Show `page_size` rows at a time (at least one), keeping the
    /// selection in view.
    pub fn with_page_size(self, page_size: usize) -> (select: Self)
        ensures
            select.header_spans() == self.header_spans(),
            select.rows_per_page() == if page_size > 1 { page_size } else { 1 },
            select.choices() == self.choices(),
            select.selection() == self.selection(),
            select.identity_text() == self.identity_text(),
            select.wraps() == self.wraps(),
            select.choices().len() > 0 ==> select.window_start() == window_top(
                select.selection() as int,
                self.window_start() as int,
                select.visible_len(),
                select.choices().len() as int,
            ),
    {
        proof {
            use_type_invariant(&self);
        }
        let mut select = self;
        select.page_size = if page_size > 1 {
            page_size
        } else {
            1
        };
        select.ensure_visible();
        select
    }

    pub fn with_wrap(self, wrap: bool) -> (select: Self)
        ensures
            select.header_spans() == self.header_spans(),
            select.wraps() == wrap,
            select.choices() == self.choices(),
            select.selection() == self.selection(),
            select.window_start() == self.window_start(),
            select.rows_per_page() == self.rows_per_page(),
            select.identity_text() == self.identity_text(),
    {
        proof {
            use_type_invariant(&self);
        }
        let mut select = self;
        select.wrap = wrap;
        select
    }

    pub fn with_header<T: IntoText>(self, header: T) -> (select: Self)
        ensures
            select.header_spans().len() == 1,
            select.header_spans()[0].text@ == header.text_chars(),
            select.header_spans()[0].role == Role::Prompt,
            select.choices() == self.choices(),
            select.selection() == self.selection(),
            select.identity_text() == self.identity_text(),
            select.rows_per_page() == self.rows_per_page(),
            select.wraps() == self.wraps(),
    {
        let mut select = self;
        select.set_header(header);
        select
    }

    pub fn set_header<T: IntoText>(&mut self, header: T)
        ensures
            final(self).header_spans().len() == 1,
            final(self).header_spans()[0].text@ == header.text_chars(),
            final(self).header_spans()[0].role == Role::Prompt,
            final(self).choices() == old(self).choices(),
            final(self).selection() == old(self).selection(),
            final(self).window_start() == old(self).window_start(),
            final(self).identity_text() == old(self).identity_text(),
            final(self).rows_per_page() == old(self).rows_per_page(),
            final(self).wraps() == old(self).wraps(),
    {
        proof {
            use_type_invariant(&*self);
        }
        let mut spans: Vec<Span> = Vec::new();
        spans.push(Span::new(header, Role::Prompt));
        self.header = spans;
    }

    pub fn with_header_spans(self, header: Vec<Span>) -> (select: Self)
        ensures
            select.header_spans() == header@,
            select.choices() == self.choices(),
            select.selection() == self.selection(),
    {
        let mut select = self;
        select.set_header_spans(header);
        select
    }

    pub fn set_header_spans(&mut self, header: Vec<Span>)
        ensures
            final(self).header_spans() == header@,
            final(self).choices() == old(self).choices(),
            final(self).selection() == old(self).selection(),
            final(self).window_start() == old(self).window_start(),
    {
        proof {
            use_type_invariant(&*self);
        }
        self.header = header;
    }

    pub fn with_prompt<T: IntoText>(self, prompt: T) -> (select: Self)
        ensures
            select.rows_per_page() == self.rows_per_page(),
            select.wraps() == self.wraps(),
            select.header_spans().len() == 1,
            select.header_spans()[0].text@ == prompt.text_chars(),
            select.choices() == self.choices(),
            select.selection() == self.selection(),
            select.identity_text() == self.identity_text(),
    {
        self.with_header(prompt)
    }

    /// Select row `selected`, or the last row when it is past the end.
    pub fn with_selected_index(self, selected: usize) -> (select: Self)
        ensures
            select.header_spans() == self.header_spans(),
            self.choices().len() > 0 ==> select.selection() == if selected < self.choices().len() {
                selected as nat
            } else {
                (self.choices().len() - 1) as nat
            },
            self.choices().len() == 0 ==> select.selection() == self.selection(),
            select.choices() == self.choices(),
            select.identity_text() == self.identity_text(),
            select.rows_per_page() == self.rows_per_page(),
            select.wraps() == self.wraps(),
    {
        proof {
            use_type_invariant(&self);
        }
        let mut select = self;
        if select.items.len() > 0 {
            select.selected = if selected < select.items.len() {
                selected
            } else {
                select.items.len() - 1
            };
            select.ensure_visible();
        }
        select
    }

    pub fn selected_index(&self) -> (index: Option<usize>)
        ensures
            self.choices().len() == 0 ==> index is None,
            self.choices().len() > 0 ==> index == Some(self.selection() as usize),
    {
        if self.items.len() == 0 {
            None
        } else {
            Some(self.selected)
        }
    }

    pub fn selected_item(&self) -> (item: Option<&SelectItem>)
        ensures
            self.choices().len() == 0 ==> item is None,
            self.choices().len() > 0 ==> item == Some(&self.choices()[self.selection() as int]),
    {
        proof {
            use_type_invariant(self);
        }
        if self.items.len() == 0 {
            None
        } else {
            Some(&self.items[self.selected])
        }
    }

    pub fn top(&self) -> (top: usize)
        ensures
            top == self.window_start(),
    {
        self.top
    }

    pub(crate) fn items_ref(&self) -> (items: &Vec<SelectItem>)
        ensures
            items@ == self.choices(),
    {
        &self.items
    }

    pub(crate) fn item_count(&self) -> (count: usize)
        ensures
            count == self.choices().len(),
    {
        self.items.len()
    }

    fn visible_len_of(&self) -> (visible: usize)
        ensures
            visible == self.visible_len(),
            visible >= 1,
    {
        proof {
            use_type_invariant(self);
        }
        let shown = if self.page_size < self.items.len() {
            self.page_size
        } else {
            self.items.len()
        };
        if shown < 1 {
            1
        } else {
            shown
        }
    }

    /// Keep the selection inside the list and the window around it.
    fn ensure_visible(&mut self)
        ensures
            final(self).choices() == old(self).choices(),
            final(self).selection() == old(self).selection(),
            final(self).rows_per_page() == old(self).rows_per_page(),
            final(self).wraps() == old(self).wraps(),
            final(self).identity_text() == old(self).identity_text(),
            final(self).header_spans() == old(self).header_spans(),
            old(self).choices().len() == 0 ==> final(self).window_start() == 0,
            old(self).choices().len() > 0 ==> final(self).window_start() == window_top(
                old(self).selection() as int,
                old(self).window_start() as int,
                old(self).visible_len(),
                old(self).choices().len() as int,
            ),
    {
        proof {
            use_type_invariant(&*self);
        }
        if self.items.len() == 0 {
            self.top = 0;
            return;
        }
        let visible = self.visible_len_of();
        self.top = scroll_window(self.selected, self.top, visible, self.items.len());
    }

    /// Move the selection as `moved_index` says; an impossible or empty move
    /// is ignored.
    fn move_by(&mut self, delta: isize) -> (reaction: Reaction)
        ensures
            match moved_index(old(self).selection() as int, old(self).choices().len() as int, delta as int, old(self).wraps()) {
                Some(next) => if next == old(self).selection() {
                    reaction is Ignored && *final(self) == *old(self)
                } else {
                    reaction is Changed && final(self).selection() == next && final(self).window_start()
                        == window_top(
                        next,
                        old(self).window_start() as int,
                        old(self).visible_len(),
                        old(self).choices().len() as int,
                    )
                },
                None => reaction is Ignored && *final(self) == *old(self),
            },
            final(self).choices() == old(self).choices(),
            final(self).rows_per_page() == old(self).rows_per_page(),
            final(self).wraps() == old(self).wraps(),
            final(self).identity_text() == old(self).identity_text(),
            final(self).header_spans() == old(self).header_spans(),
    {
        proof {
            use_type_invariant(&*self);
        }
        let next = match move_index(self.selected, self.items.len(), delta, self.wrap) {
            Some(next) => next,
            None => return Reaction::Ignored,
        };
        if next == self.selected {
            return Reaction::Ignored;
        }
        self.selected = next;
        self.ensure_visible();
        Reaction::Changed
    }

    /// Move the selection to `selected`, or to the last row past the end.
    fn move_to(&mut self, selected: usize) -> (reaction: Reaction)
        ensures
            old(self).choices().len() == 0 ==> reaction is Ignored && *final(self) == *old(self),
            old(self).choices().len() > 0 ==> {
                let target = if selected < old(self).choices().len() {
                    selected as int
                } else {
                    old(self).choices().len() - 1
                };
                if target == old(self).selection() {
                    reaction is Ignored && *final(self) == *old(self)
                } else {
                    reaction is Changed && final(self).selection() == target && final(self).window_start()
                        == window_top(
                        target,
                        old(self).window_start() as int,
                        old(self).visible_len(),
                        old(self).choices().len() as int,
                    )
                }
            },
            final(self).choices() == old(self).choices(),
            final(self).rows_per_page() == old(self).rows_per_page(),
            final(self).wraps() == old(self).wraps(),
            final(self).identity_text() == old(self).identity_text(),
            final(self).header_spans() == old(self).header_spans(),
    {
        proof {
            use_type_invariant(&*self);
        }
        if self.items.len() == 0 {
            return Reaction::Ignored;
        }
        let target = if selected < self.items.len() {
            selected
        } else {
            self.items.len() - 1
        };
        if target == self.selected {
            return Reaction::Ignored;
        }
        self.selected = target;
        self.ensure_visible();
        Reaction::Changed
    }

    fn submit(&self) -> (reaction: Reaction)
        ensures
            self.choices().len() == 0 ==> reaction is Ignored,
            self.choices().len() > 0 ==> (reaction matches Reaction::Submit(v) && v@
                == self.choices()[self.selection() as int].value@),
    {
        match self.selected_item() {
            Some(item) => Reaction::Submit(item.value.clone()),
            None => Reaction::Ignored,
        }
    }

    /// The rows in view, with the checked marks when given.
    pub fn list_view(&self, checked: Option<&Vec<bool>>) -> (list: ListView)
        requires
            checked matches Some(marks) ==> marks@.len() == self.choices().len(),
        ensures
            list.total == self.choices().len(),
            list.requested_start == self.window_start(),
            list.rows@.len() <= self.visible_len(),
            forall|k: int| 0 <= k < list.rows@.len() ==> shown_row(
                #[trigger] list.rows@[k],
                self.choices()[self.window_start() + k],
                self.window_start() + k == self.selection(),
                match checked {
                    Some(marks) => Some(marks@[self.window_start() + k]),
                    None => None,
                },
            ) && self.window_start() + k < self.choices().len(),
    {
        proof {
            use_type_invariant(self);
        }
        let visible = self.visible_len_of();
        let mut rows: Vec<ListRow> = Vec::new();
        let mut index = self.top;
        let mut shown: usize = 0;
        while index < self.items.len() && shown < visible
            invariant
                self.top <= index,
                shown <= visible,
                visible == self.visible_len(),
                index == self.top + shown,
                rows@.len() == shown,
                checked matches Some(marks) ==> marks@.len() == self.items@.len(),
                forall|k: int| 0 <= k < rows@.len() ==> shown_row(
                    #[trigger] rows@[k],
                    self.choices()[self.window_start() + k],
                    self.window_start() + k == self.selection(),
                    match checked {
                        Some(marks) => Some(marks@[self.window_start() + k]),
                        None => None,
                    },
                ) && self.window_start() + k < self.choices().len(),
            decreases self.items@.len() - index,
        {
            let selected = index == self.selected;
            let mut row_id = String::new();
            push_str(&mut row_id, self.id.as_str());
            push_str(&mut row_id, "/row/");
            push_decimal(&mut row_id, index as u64);
            let mut spans: Vec<Span> = Vec::new();
            spans.push(Span::new(self.items[index].label.clone(), if selected {
                Role::Selected
            } else {
                Role::Normal
            }));
            let mark = match checked {
                Some(marks) => Some(marks[index]),
                None => None,
            };
            rows.push(ListRow { id: Some(ViewId::owned(row_id)), spans, selected, checked: mark });
            index += 1;
            shown += 1;
        }
        assert(forall|k: int| 0 <= k < rows@.len() ==> shown_row(
            #[trigger] rows@[k],
            self.choices()[self.window_start() + k],
            self.window_start() + k == self.selection(),
            match checked {
                Some(marks) => Some(marks@[self.window_start() + k]),
                None => None,
            },
        ));
        let mut list_id = String::new();
        push_str(&mut list_id, self.id.as_str());
        push_str(&mut list_id, "/list");
        let mut help: Vec<Span> = Vec::new();
        help.push(Span::new("enter submit | esc cancel", Role::Dim));
        let selected = if self.items.len() == 0 {
            None
        } else if self.selected >= self.top {
            Some(self.selected - self.top)
        } else {
            Some(0)
        };
        ListView {
            id: Some(ViewId::owned(list_id)),
            header: self.header.clone(),
            rows,
            selected,
            requested_start: self.top,
            total: self.items.len(),
            max_visible: None,
            help,
        }
    }
}

impl Widget for Select {
    open spec fn identity(&self) -> Seq<char> {
        self.identity_text()
    }

    open spec fn held_value(&self) -> Option<ValueModel> {
        if self.choices().len() > 0 {
            Some(self.choices()[self.selection() as int].value@)
        } else {
            None
        }
    }

    /// The value of the row moved to, or of the same row.
    open spec fn holds_after(&self, event: Event, layout: Seq<ListPresentation>, value: Option<ValueModel>) -> bool {
        let next = match event {
            Event::Key(key) => match list_intent(key, self.choices().len() as int, self.visible_len()) {
                ListIntent::Move(delta) => match moved_index(
                    self.selection() as int,
                    self.choices().len() as int,
                    delta,
                    self.wraps(),
                ) {
                    Some(next) => next,
                    None => self.selection() as int,
                },
                ListIntent::MoveTo(target) => if self.choices().len() == 0 {
                    self.selection() as int
                } else if target < self.choices().len() {
                    target
                } else {
                    self.choices().len() - 1
                },
                _ => self.selection() as int,
            },
            _ => self.selection() as int,
        };
        value == if self.choices().len() > 0 {
            Some(self.choices()[next].value@)
        } else {
            None::<ValueModel>
        }
    }

    open spec fn reacts(&self, event: Event, layout: Seq<ListPresentation>, reaction: Reaction) -> bool {
        match event {
            Event::Key(key) => match list_intent(key, self.choices().len() as int, self.visible_len()) {
                ListIntent::Move(delta) => match moved_index(
                    self.selection() as int,
                    self.choices().len() as int,
                    delta,
                    self.wraps(),
                ) {
                    Some(next) => if next == self.selection() {
                        reaction is Ignored
                    } else {
                        reaction is Changed
                    },
                    None => reaction is Ignored,
                },
                ListIntent::Submit => self.choices().len() > 0 ==> (reaction matches Reaction::Submit(v) && v@
                    == self.choices()[self.selection() as int].value@),
                ListIntent::MoveTo(target) => if self.choices().len() == 0 {
                    reaction is Ignored
                } else {
                    let next = if target < self.choices().len() {
                        target
                    } else {
                        self.choices().len() - 1
                    };
                    if next == self.selection() {
                        reaction is Ignored
                    } else {
                        reaction is Changed
                    }
                },
                ListIntent::Cancel => reaction is Cancel,
                ListIntent::Ignore => reaction is Ignored,
            },
            _ => reaction is Ignored,
        }
    }

    fn id(&self) -> (id: WidgetId) {
        self.id.clone()
    }

    /// Navigate, submit the selected item's value, or cancel, as
    /// [`list_intent`] says.
    fn handle(&mut self, event: Event, cx: &mut Context) -> (reaction: Reaction)
        ensures
            final(self).choices() == old(self).choices(),
            final(self).wraps() == old(self).wraps(),
            final(self).rows_per_page() == old(self).rows_per_page(),
            final(self).identity_text() == old(self).identity_text(),
            match event {
                Event::Key(key) => match list_intent(key, old(self).choices().len() as int, old(self).visible_len()) {
                    ListIntent::Move(delta) => match moved_index(
                        old(self).selection() as int,
                        old(self).choices().len() as int,
                        delta,
                        old(self).wraps(),
                    ) {
                        Some(next) => (next == old(self).selection() ==> reaction is Ignored) && (next
                            != old(self).selection() ==> reaction is Changed && final(self).selection()
                            == next),
                        None => reaction is Ignored,
                    },
                    ListIntent::Submit => old(self).choices().len() > 0 ==> (reaction matches Reaction::Submit(v)
                        && v@ == old(self).choices()[old(self).selection() as int].value@),
                    ListIntent::MoveTo(target) => if old(self).choices().len() == 0 {
                        reaction is Ignored
                    } else {
                        let next = if target < old(self).choices().len() {
                            target
                        } else {
                            old(self).choices().len() - 1
                        };
                        (next == old(self).selection() ==> reaction is Ignored) && (next != old(self).selection()
                            ==> reaction is Changed && final(self).selection() == next)
                    },
                    ListIntent::Cancel => reaction is Cancel,
                    ListIntent::Ignore => reaction is Ignored,
                },
                _ => reaction is Ignored,
            },
    {
        proof {
            use_type_invariant(&*self);
        }
        let key = match event {
            Event::Key(key) => key,
            _ => return Reaction::Ignored,
        };
        let visible = self.visible_len_of();
        match key.key {
            Key::Up => self.move_by(-1),
            Key::Down => self.move_by(1),
            Key::Home => self.move_to(0),
            Key::End => {
                let last = if self.items.len() > 0 {
                    self.items.len() - 1
                } else {
                    0
                };
                self.move_to(last)
            },
            Key::PageUp => {
                let delta = visible_delta(visible);
                self.move_by(-delta)
            },
            Key::PageDown => self.move_by(visible_delta(visible)),
            Key::Char(c) => {
                if no_modifiers(&key) && (c == 'k' || c == 'K') {
                    self.move_by(-1)
                } else if no_modifiers(&key) && (c == 'j' || c == 'J') {
                    self.move_by(1)
                } else {
                    Reaction::Ignored
                }
            },
            Key::Enter => self.submit(),
            Key::Esc => Reaction::Cancel,
            _ => Reaction::Ignored,
        }
    }

    /// The list of the items in view.
    open spec fn shows(&self, cx: ViewContext, view: View) -> bool {
        view matches View::List(list) && {
            &&& list.total == self.choices().len()
            &&& list.requested_start == self.window_start()
            &&& list.rows@.len() <= self.visible_len()
            &&& forall|k: int| 0 <= k < list.rows@.len() ==> shown_row(
                #[trigger] list.rows@[k],
                self.choices()[self.window_start() + k],
                self.window_start() + k == self.selection(),
                None,
            )
        }
    }

    fn view(&self, cx: &ViewContext) -> (view: View) {
        View::List(self.list_view(None))
    }

    fn current_value(&self) -> (value: Option<Value>) {
        match self.selected_item() {
            Some(item) => Some(item.value.clone()),
            None => None,
        }
    }
}

/// The values of the checked items, in order, over the items that have a
/// mark.
pub open spec fn checked_prefix(items: Seq<SelectItem>, marks: Seq<bool>, n: int) -> Seq<ValueModel>
    decreases n,
{
    if n <= 0 {
        Seq::empty()
    } else if marks[n - 1] {
        checked_prefix(items, marks, n - 1).push(items[n - 1].value@)
    } else {
        checked_prefix(items, marks, n - 1)
    }
}

/// Whether every mark is `checked`.
pub open spec fn all_marked(marks: Seq<bool>, checked: bool) -> bool {
    forall|i: int| 0 <= i < marks.len() ==> #[trigger] marks[i] == checked
}

/// Whether `indices` names item `i`.
pub open spec fn names_index(indices: Seq<usize>, i: int) -> bool {
    exists|k: int| 0 <= k < indices.len() && #[trigger] indices[k] as int == i
}

/// Marks that all hold `checked` are the filled marks.
proof fn lemma_all_marked_filled(marks: Seq<bool>, checked: bool)
    ensures
        all_marked(marks, checked) ==> marks == Seq::new(marks.len(), |i: int| checked),
{
    if all_marked(marks, checked) {
        assert(marks =~= Seq::new(marks.len(), |i: int| checked));
    }
}

pub open spec fn checked_model(items: Seq<SelectItem>, marks: Seq<bool>) -> Seq<ValueModel> {
    checked_prefix(items, marks, if items.len() < marks.len() { items.len() as int } else { marks.len() as int })
}

/// A multiple-choice list: a single-choice list with a mark on each item.
#[derive(Debug)]
pub struct MultiSelect {
    select: Select,
    checked: Vec<bool>,
}

impl MultiSelect {
    pub closed spec fn list(&self) -> Select {
        self.select
    }

    pub closed spec fn marks(&self) -> Seq<bool> {
        self.checked@
    }

    pub open spec fn identity_text(&self) -> Seq<char> {
        self.list().identity_text()
    }

    pub open spec fn choices(&self) -> Seq<SelectItem> {
        self.list().choices()
    }

    pub open spec fn selection(&self) -> nat {
        self.list().selection()
    }

    /// The values of the checked items.
    pub open spec fn checked_model(&self) -> Seq<ValueModel> {
        checked_model(self.choices(), self.marks())
    }

    /// A list of `items`, none checked.
    pub fn new<T: IntoText>(id: T, items: Vec<SelectItem>) -> (multi: Self)
        ensures
            multi.list().identity_text() == id.text_chars(),
            multi.list().header_spans().len() == 0,
            multi.choices() == items@,
            multi.selection() == 0,
            multi.list().rows_per_page() == DEFAULT_PAGE_SIZE,
            multi.list().wraps(),
            multi.marks() == Seq::new(items@.len(), |i: int| false),
    {
        let count = items.len();
        let select = Select::new(id, items);
        let mut checked: Vec<bool> = Vec::new();
        let mut i: usize = 0;
        while i < count
            invariant
                i <= count,
                checked@ == Seq::new(i as nat, |k: int| false),
            decreases count - i,
        {
            checked.push(false);
            assert(checked@ =~= Seq::new((i + 1) as nat, |k: int| false));
            i += 1;
        }
        MultiSelect { select, checked }
    }

    pub fn with_page_size(self, page_size: usize) -> (multi: Self)
        ensures
            multi.list().identity_text() == self.list().identity_text(),
            multi.list().header_spans() == self.list().header_spans(),
            multi.list().rows_per_page() == if page_size > 1 { page_size } else { 1 },
            multi.choices() == self.choices(),
            multi.selection() == self.selection(),
            multi.list().wraps() == self.list().wraps(),
            multi.marks() == self.marks(),
    {
        MultiSelect { select: self.select.with_page_size(page_size), checked: self.checked }
    }

    pub fn with_wrap(self, wrap: bool) -> (multi: Self)
        ensures
            multi.list().identity_text() == self.list().identity_text(),
            multi.list().header_spans() == self.list().header_spans(),
            multi.list().rows_per_page() == self.list().rows_per_page(),
            multi.list().wraps() == wrap,
            multi.choices() == self.choices(),
            multi.selection() == self.selection(),
            multi.marks() == self.marks(),
    {
        MultiSelect { select: self.select.with_wrap(wrap), checked: self.checked }
    }

    pub fn with_header<T: IntoText>(self, header: T) -> (multi: Self)
        ensures
            multi.list().identity_text() == self.list().identity_text(),
            multi.list().rows_per_page() == self.list().rows_per_page(),
            multi.list().wraps() == self.list().wraps(),
            multi.list().header_spans().len() == 1,
            multi.list().header_spans()[0].text@ == header.text_chars(),
            multi.choices() == self.choices(),
            multi.selection() == self.selection(),
            multi.marks() == self.marks(),
    {
        MultiSelect { select: self.select.with_header(header), checked: self.checked }
    }

    pub fn with_header_spans(self, header: Vec<Span>) -> (multi: Self)
        ensures
            multi.list().header_spans() == header@,
            multi.choices() == self.choices(),
            multi.selection() == self.selection(),
            multi.marks() == self.marks(),
    {
        MultiSelect { select: self.select.with_header_spans(header), checked: self.checked }
    }

    /// The prompt is the header.
    pub fn with_prompt<T: IntoText>(self, prompt: T) -> (multi: Self)
        ensures
            multi.list().identity_text() == self.list().identity_text(),
            multi.list().rows_per_page() == self.list().rows_per_page(),
            multi.list().wraps() == self.list().wraps(),
            multi.list().header_spans().len() == 1,
            multi.list().header_spans()[0].text@ == prompt.text_chars(),
            multi.choices() == self.choices(),
            multi.selection() == self.selection(),
            multi.marks() == self.marks(),
    {
        self.with_header(prompt)
    }

    pub fn with_selected_index(self, selected: usize) -> (multi: Self)
        ensures
            multi.list().identity_text() == self.list().identity_text(),
            multi.list().header_spans() == self.list().header_spans(),
            multi.list().rows_per_page() == self.list().rows_per_page(),
            multi.list().wraps() == self.list().wraps(),
            self.choices().len() > 0 ==> multi.selection() == if selected < self.choices().len() {
                selected as nat
            } else {
                (self.choices().len() - 1) as nat
            },
            self.choices().len() == 0 ==> multi.selection() == self.selection(),
            multi.choices() == self.choices(),
            multi.marks() == self.marks(),
    {
        MultiSelect { select: self.select.with_selected_index(selected), checked: self.checked }
    }

    /// Check each of `indices` that names an item.
    pub fn with_checked_indices(self, indices: Vec<usize>) -> (multi: Self)
        ensures
            multi.list() == self.list(),
            multi.choices() == self.choices(),
            multi.selection() == self.selection(),
            multi.marks().len() == self.marks().len(),
            forall|i: int| 0 <= i < self.marks().len() ==> #[trigger] multi.marks()[i] == (self.marks()[i]
                || names_index(indices@, i)),
    {
        let mut multi = self;
        let mut k: usize = 0;
        while k < indices.len()
            invariant
                k <= indices@.len(),
                multi.list() == self.list(),
                multi.choices() == self.choices(),
                multi.selection() == self.selection(),
                multi.marks().len() == self.marks().len(),
                forall|i: int| 0 <= i < self.marks().len() ==> #[trigger] multi.marks()[i] == (self.marks()[i]
                    || names_index(indices@.subrange(0, k as int), i)),
            decreases indices@.len() - k,
        {
            let index = indices[k];
            multi.set_checked(index, true);
            proof {
                let before = indices@.subrange(0, k as int);
                let after = indices@.subrange(0, k + 1);
                assert(after =~= before.push(index));
                assert forall|i: int| 0 <= i < self.marks().len() implies #[trigger] multi.marks()[i] == (self.marks()[i]
                    || names_index(after, i)) by {
                    if names_index(before, i) {
                        let j = choose|j: int| 0 <= j < before.len() && #[trigger] before[j] as int == i;
                        assert(after[j] as int == i);
                    }
                    if i == index as int {
                        assert(after[k as int] as int == i);
                    }
                    if names_index(after, i) && i != index as int {
                        let j = choose|j: int| 0 <= j < after.len() && #[trigger] after[j] as int == i;
                        assert(j < k);
                        assert(before[j] as int == i);
                    }
                }
            }
            k += 1;
        }
        assert(indices@.subrange(0, indices@.len() as int) =~= indices@);
        multi
    }

    /// The values of the checked items, in order.
    pub fn checked_values(&self) -> (values: Vec<Value>)
        ensures
            list_model(values@) == self.checked_model(),
    {
        let items = self.select.items_ref();
        let n = if items.len() < self.checked.len() {
            items.len()
        } else {
            self.checked.len()
        };
        let mut values: Vec<Value> = Vec::new();
        let mut i: usize = 0;
        while i < n
            invariant
                i <= n,
                n <= items@.len(),
                n <= self.checked@.len(),
                items@ == self.choices(),
                list_model(values@) == checked_prefix(items@, self.checked@, i as int),
            decreases n - i,
        {
            if self.checked[i] {
                let value = items[i].value.clone();
                let ghost before = values@;
                values.push(value);
                assert(values@.drop_last() =~= before);
            }
            i += 1;
        }
        values
    }

    pub fn selected_index(&self) -> (index: Option<usize>)
        ensures
            self.choices().len() == 0 ==> index is None,
            self.choices().len() > 0 ==> index == Some(self.selection() as usize),
    {
        self.select.selected_index()
    }

    /// Set the mark of item `index`, if there is one.
    pub fn set_checked(&mut self, index: usize, checked: bool)
        ensures
            final(self).list() == old(self).list(),
            index < old(self).marks().len() ==> final(self).marks() == old(self).marks().update(index as int, checked),
            index >= old(self).marks().len() ==> final(self).marks() == old(self).marks(),
    {
        if index < self.checked.len() {
            self.checked.set(index, checked);
        }
    }

    /// Flip the mark of the selected item.
    fn toggle_selected(&mut self) -> (reaction: Reaction)
        ensures
            final(self).list() == old(self).list(),
            old(self).choices().len() > 0 && old(self).selection() < old(self).marks().len() ==> reaction is Changed
                && final(self).marks() == old(self).marks().update(
                old(self).selection() as int,
                !old(self).marks()[old(self).selection() as int],
            ),
            !(old(self).choices().len() > 0 && old(self).selection() < old(self).marks().len()) ==> reaction is Ignored
                && final(self).marks() == old(self).marks(),
    {
        let index = match self.select.selected_index() {
            Some(index) => index,
            None => return Reaction::Ignored,
        };
        if index >= self.checked.len() {
            return Reaction::Ignored;
        }
        let flipped = !self.checked[index];
        self.checked.set(index, flipped);
        Reaction::Changed
    }

    /// Set every mark, or ignore the request when they all are so already.
    fn set_all(&mut self, checked: bool) -> (reaction: Reaction)
        ensures
            final(self).list() == old(self).list(),
            all_marked(old(self).marks(), checked) ==> reaction is Ignored && final(self).marks() == old(self).marks(),
            !all_marked(old(self).marks(), checked) ==> reaction is Changed && final(self).marks() == Seq::new(old(self).marks().len(), |i: int| checked),
    {
        let ghost start = self.checked@;
        let mut all = true;
        let mut i: usize = 0;
        while i < self.checked.len()
            invariant
                i <= self.checked@.len(),
                all == forall|k: int| 0 <= k < i ==> #[trigger] self.checked@[k] == checked,
            decreases self.checked@.len() - i,
        {
            if self.checked[i] != checked {
                all = false;
            }
            i += 1;
        }
        assert(self.checked@ == start);
        assert(all == all_marked(start, checked));
        if all {
            return Reaction::Ignored;
        }
        let count = self.checked.len();
        let mut marks: Vec<bool> = Vec::new();
        let mut j: usize = 0;
        while j < count
            invariant
                j <= count,
                marks@ == Seq::new(j as nat, |k: int| checked),
            decreases count - j,
        {
            marks.push(checked);
            assert(marks@ =~= Seq::new((j + 1) as nat, |k: int| checked));
            j += 1;
        }
        self.checked = marks;
        Reaction::Changed
    }
}

impl Widget for MultiSelect {
    open spec fn identity(&self) -> Seq<char> {
        self.identity_text()
    }

    open spec fn held_value(&self) -> Option<ValueModel> {
        Some(ValueModel::List(self.checked_model()))
    }

    /// The checked values after the event: the selected row's mark
    /// flipped by space or tab, every mark set by `a` and cleared by `n`,
    /// the marks kept otherwise.
    open spec fn holds_after(&self, event: Event, layout: Seq<ListPresentation>, value: Option<ValueModel>) -> bool {
        let toggled = if self.choices().len() > 0 && self.selection() < self.marks().len() {
            self.marks().update(self.selection() as int, !self.marks()[self.selection() as int])
        } else {
            self.marks()
        };
        let marks = match event {
            Event::Key(key) => match key.key {
                Key::Char(c) => if c == ' ' {
                    toggled
                } else if key.modifiers.0 == 0 && (c == 'a' || c == 'A') {
                    Seq::new(self.marks().len(), |i: int| true)
                } else if key.modifiers.0 == 0 && (c == 'n' || c == 'N') {
                    Seq::new(self.marks().len(), |i: int| false)
                } else {
                    self.marks()
                },
                Key::Tab => toggled,
                _ => self.marks(),
            },
            _ => self.marks(),
        };
        value == Some(ValueModel::List(checked_model(self.choices(), marks)))
    }

    open spec fn reacts(&self, event: Event, layout: Seq<ListPresentation>, reaction: Reaction) -> bool {
        match event {
            Event::Key(key) => match key.key {
                Key::Char(c) => c == ' ' ==> (self.choices().len() > 0 && self.selection() < self.marks().len()
                    ==> reaction is Changed),
                Key::Tab => self.choices().len() > 0 && self.selection() < self.marks().len() ==> reaction is Changed,
                Key::Enter => reaction matches Reaction::Submit(v) && v@ == ValueModel::List(self.checked_model()),
                Key::Esc => reaction is Cancel,
                _ => true,
            },
            _ => reaction is Ignored,
        }
    }

    fn id(&self) -> (id: WidgetId) {
        self.select.id()
    }

    /// Space and Tab flip the selected mark, `a` checks and `n` clears every
    /// mark, Enter submits the checked values and Esc cancels; other keys
    /// move the selection.
    fn handle(&mut self, event: Event, cx: &mut Context) -> (reaction: Reaction)
        ensures
            final(self).choices() == old(self).choices(),
            final(self).marks().len() == old(self).marks().len(),
            match event {
                Event::Key(key) => match key.key {
                    Key::Char(c) => if c == ' ' {
                        final(self).list() == old(self).list() && (old(self).choices().len() > 0 && old(self).selection()
                            < old(self).marks().len() ==> reaction is Changed && final(self).marks()[old(self).selection() as int]
                            == !old(self).marks()[old(self).selection() as int])
                    } else if key.modifiers.0 == 0 && (c == 'a' || c == 'A') {
                        final(self).list() == old(self).list() && final(self).marks() == Seq::new(old(self).marks().len(), |i: int| true)
                    } else if key.modifiers.0 == 0 && (c == 'n' || c == 'N') {
                        final(self).list() == old(self).list() && final(self).marks() == Seq::new(old(self).marks().len(), |i: int| false)
                    } else {
                        final(self).marks() == old(self).marks()
                    },
                    Key::Tab => final(self).list() == old(self).list() && (old(self).choices().len() > 0 && old(self).selection()
                        < old(self).marks().len() ==> reaction is Changed && final(self).marks()[old(self).selection() as int]
                        == !old(self).marks()[old(self).selection() as int]),
                    Key::Enter => reaction matches Reaction::Submit(v) && v@ == ValueModel::List(old(self).checked_model()),
                    Key::Esc => reaction is Cancel,
                    _ => final(self).marks() == old(self).marks(),
                },
                _ => reaction is Ignored && final(self).marks() == old(self).marks(),
            },
    {
        let key = match &event {
            Event::Key(key) => key.clone(),
            _ => return Reaction::Ignored,
        };
        match key.key {
            Key::Char(c) => {
                if c == ' ' {
                    return self.toggle_selected();
                }
                if no_modifiers(&key) && (c == 'a' || c == 'A') {
                    proof {
                        lemma_all_marked_filled(self.marks(), true);
                    }
                    return self.set_all(true);
                }
                if no_modifiers(&key) && (c == 'n' || c == 'N') {
                    proof {
                        lemma_all_marked_filled(self.marks(), false);
                    }
                    return self.set_all(false);
                }
                self.select.handle(event, cx)
            },
            Key::Tab => self.toggle_selected(),
            Key::Enter => Reaction::Submit(Value::List(self.checked_values())),
            Key::Esc => Reaction::Cancel,
            _ => self.select.handle(event, cx),
        }
    }

    /// The list of the items in view, each with its check mark.
    open spec fn shows(&self, cx: ViewContext, view: View) -> bool {
        view matches View::List(list) && {
            &&& list.total == self.choices().len()
            &&& list.requested_start == self.list().window_start()
            &&& list.rows@.len() <= self.list().visible_len()
            &&& forall|k: int| 0 <= k < list.rows@.len() ==> shown_row(
                #[trigger] list.rows@[k],
                self.choices()[self.list().window_start() + k],
                self.list().window_start() + k == self.selection(),
                if self.marks().len() == self.choices().len() {
                    Some(self.marks()[self.list().window_start() + k])
                } else {
                    None
                },
            )
        }
    }

    fn view(&self, cx: &ViewContext) -> (view: View) {
        if self.checked.len() == self.select.item_count() {
            View::List(self.select.list_view(Some(&self.checked)))
        } else {
            View::List(self.select.list_view(None))
        }
    }

    fn current_value(&self) -> (value: Option<Value>) {
        Some(Value::List(self.checked_values()))
    }
}

} // verus!
