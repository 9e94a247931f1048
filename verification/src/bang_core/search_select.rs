//! A list filtered by a typed query: the items whose label holds the query,
//! ignoring ASCII case.

use vstd::prelude::*;
use vstd::view::View as _;

use crate::bang_core::event::{Event, Key, KeyEvent, Modifiers};
use crate::bang_core::ids::{ViewId, WidgetId};
use crate::bang_core::navigation::{move_index, moved_index, no_modifiers, scroll_window, visible_delta, window_top};
use crate::bang_core::render::{ListPresentation, ListRow, ListView, Role, Span, View, ViewContext};
use crate::bang_core::select::{page_step, visible_rows, SelectItem, DEFAULT_PAGE_SIZE};
use crate::bang_core::text_input::{input_step, InputOutcome, TextInput};
use crate::bang_core::value::{Value, ValueModel};
use crate::bang_core::widget::{Context, Reaction, Widget};
use crate::text::{
    ascii_lower, chars_of, find_chars, first_occurrence, first_occurrence_from, lower_chars, lower_text, occurs_at, push_decimal,
    push_str, string_of_range, IntoText,
};

verus! {

/// Whether a label matches a query: an empty query matches every label,
/// another one matches where it stands in the label, ignoring ASCII case.
pub open spec fn matches_query(label: Seq<char>, query: Seq<char>) -> bool {
    query.len() == 0 || first_occurrence(lower_text(label), lower_text(query)) is Some
}

/// Decide whether `label` matches `query`.
pub fn label_matches(label: &str, query: &str) -> (matched: bool)
    ensures
        matched == matches_query(label@, query@),
{
    if query.unicode_len() == 0 {
        return true;
    }
    let hay = lower_chars(label);
    let needle = lower_chars(query);
    find_chars(&hay, &needle).is_some()
}

/// The indices of the first `n` items whose labels match `query`, in order.
pub open spec fn matching_prefix(items: Seq<SelectItem>, query: Seq<char>, n: int) -> Seq<usize>
    decreases n,
{
    if n <= 0 {
        Seq::empty()
    } else if matches_query(items[n - 1].label@, query) {
        matching_prefix(items, query, n - 1).push((n - 1) as usize)
    } else {
        matching_prefix(items, query, n - 1)
    }
}

/// The indices of the items whose labels match `query`, in order.
pub open spec fn matching(items: Seq<SelectItem>, query: Seq<char>) -> Seq<usize> {
    matching_prefix(items, query, items.len() as int)
}

proof fn lemma_matching_prefix_bounded(items: Seq<SelectItem>, query: Seq<char>, n: int)
    requires
        0 <= n <= items.len(),
        items.len() <= usize::MAX,
    ensures
        matching_prefix(items, query, n).len() <= n,
        forall|k: int| 0 <= k < matching_prefix(items, query, n).len() ==> #[trigger] matching_prefix(items, query, n)[k] < n,
    decreases n,
{
    if n > 0 {
        lemma_matching_prefix_bounded(items, query, n - 1);
    }
}

/// Whether `query` stands somewhere in `label`, capitals and small ASCII
/// letters taken alike.
pub open spec fn stands_in(label: Seq<char>, query: Seq<char>) -> bool {
    exists|at: int| #[trigger] stands_at(label, query, at)
}

/// Whether `query` stands in `label` from position `at` on, capitals and
/// small ASCII letters taken alike.
pub open spec fn stands_at(label: Seq<char>, query: Seq<char>, at: int) -> bool {
    0 <= at && at + query.len() <= label.len() && forall|j: int|
        0 <= j < query.len() ==> #[trigger] ascii_lower(label[at + j]) == ascii_lower(query[j])
}

proof fn lemma_first_occurrence_found(hay: Seq<char>, needle: Seq<char>, from: int)
    requires
        0 <= from,
    ensures
        first_occurrence_from(hay, needle, from) is Some <==> exists|at: int|
            from <= at && #[trigger] occurs_at(hay, needle, at),
    decreases hay.len() + 1 - from,
{
    if from + needle.len() <= hay.len() && !occurs_at(hay, needle, from) {
        lemma_first_occurrence_found(hay, needle, from + 1);
        if exists|at: int| from <= at && #[trigger] occurs_at(hay, needle, at) {
            let at = choose|at: int| from <= at && #[trigger] occurs_at(hay, needle, at);
            assert(at != from);
            assert(from + 1 <= at);
        }
    }
}

proof fn lemma_matches_query_stands_in(label: Seq<char>, query: Seq<char>)
    requires
        query.len() > 0,
    ensures
        matches_query(label, query) == stands_in(label, query),
{
    let hay = lower_text(label);
    let needle = lower_text(query);
    lemma_first_occurrence_found(hay, needle, 0);
    if stands_in(label, query) {
        let at = choose|at: int| #[trigger] stands_at(label, query, at);
        assert forall|j: int| 0 <= j < needle.len() implies hay.subrange(at, at + needle.len())[j] == needle[j] by {
            assert(ascii_lower(label[at + j]) == ascii_lower(query[j]));
        }
        assert(hay.subrange(at, at + needle.len()) =~= needle);
        assert(occurs_at(hay, needle, at));
    }
    if matches_query(label, query) {
        let at = choose|at: int| 0 <= at && #[trigger] occurs_at(hay, needle, at);
        assert forall|j: int| 0 <= j < query.len() implies #[trigger] ascii_lower(label[at + j]) == ascii_lower(query[j]) by {
            assert(hay.subrange(at, at + needle.len())[j] == needle[j]);
        }
        assert(stands_at(label, query, at));
    }
}

proof fn lemma_matching_prefix_members(items: Seq<SelectItem>, query: Seq<char>, n: int)
    requires
        0 <= n <= items.len() <= usize::MAX,
    ensures
        forall|i: int| 0 <= i < items.len() ==> (matching_prefix(items, query, n).contains(i as usize) <==> (i < n
            && matches_query(#[trigger] items[i].label@, query))),
        forall|j: int, k: int|
            0 <= j < k < matching_prefix(items, query, n).len() ==> #[trigger] matching_prefix(items, query, n)[j]
                < #[trigger] matching_prefix(items, query, n)[k],
    decreases n,
{
    if n > 0 {
        lemma_matching_prefix_members(items, query, n - 1);
        lemma_matching_prefix_bounded(items, query, n - 1);
        let before = matching_prefix(items, query, n - 1);
        assert forall|i: int| 0 <= i < items.len() implies (matching_prefix(items, query, n).contains(i as usize) <==> (i
            < n && matches_query(#[trigger] items[i].label@, query))) by {
            if matching_prefix(items, query, n).contains(i as usize) && !before.contains(i as usize) {
                let k = choose|k: int| 0 <= k < matching_prefix(items, query, n).len() && matching_prefix(items, query, n)[k] == i as usize;
                assert(k == before.len());
            }
            if i < n - 1 && before.contains(i as usize) {
                let k = choose|k: int| 0 <= k < before.len() && before[k] == i as usize;
                assert(matching_prefix(items, query, n).contains(i as usize)) by {
                    assert(matching_prefix(items, query, n)[k] == i as usize);
                }
            }
            if i == n - 1 && matches_query(items[i].label@, query) {
                assert(matching_prefix(items, query, n)[before.len() as int] == i as usize);
            }
            if i == n - 1 && before.contains(i as usize) {
                let k = choose|k: int| 0 <= k < before.len() && before[k] == i as usize;
                assert(before[k] < n - 1);
            }
        }
    }
}

/// The search keys: Up, Down, `k` and `j` move by one match, the page keys
/// by a page of visible rows, Enter submits and Esc cancels; Home, End and
/// every other key edit the query, letters other than `k` and `j` typed
/// into it.
pub proof fn law_search_keys(visible: int, c: char)
    requires
        1 <= visible <= isize::MAX,
    ensures
        ({
            let intent = |key: Key| search_intent(KeyEvent { key, modifiers: Modifiers(0) }, visible);
            &&& intent(Key::Up) == SearchIntent::Move(-1)
            &&& intent(Key::Char('k')) == SearchIntent::Move(-1)
            &&& intent(Key::Down) == SearchIntent::Move(1)
            &&& intent(Key::Char('j')) == SearchIntent::Move(1)
            &&& intent(Key::PageUp) == SearchIntent::Move(-visible)
            &&& intent(Key::PageDown) == SearchIntent::Move(visible)
            &&& intent(Key::Enter) == SearchIntent::Submit
            &&& intent(Key::Esc) == SearchIntent::Cancel
            &&& intent(Key::Home) == SearchIntent::Edit
            &&& intent(Key::Backspace) == SearchIntent::Edit
            &&& c != 'k' && c != 'K' && c != 'j' && c != 'J' ==> intent(Key::Char(c)) == SearchIntent::Edit
        }),
{
}

/// Whether item `i` is among the matches exactly when its label holds the
/// query, capitals and small ASCII letters taken alike, or the query is
/// empty.
pub open spec fn kept_by_search(items: Seq<SelectItem>, query: Seq<char>, i: int) -> bool {
    matching(items, query).contains(i as usize) <==> (query.len() == 0 || stands_in(items[i].label@, query))
}

/// A search keeps exactly the items whose labels hold the query, capitals
/// and small ASCII letters taken alike (every item for an empty query), in
/// their order.
pub proof fn law_search_keeps_labels_holding_the_query(items: Seq<SelectItem>, query: Seq<char>)
    requires
        items.len() <= usize::MAX,
    ensures
        forall|i: int| 0 <= i < items.len() ==> #[trigger] kept_by_search(items, query, i),
        forall|j: int, k: int|
            0 <= j < k < matching(items, query).len() ==> #[trigger] matching(items, query)[j] < #[trigger] matching(
                items,
                query,
            )[k],
{
    lemma_matching_prefix_members(items, query, items.len() as int);
    assert(matching(items, query) == matching_prefix(items, query, items.len() as int));
    assert forall|i: int| 0 <= i < items.len() implies #[trigger] kept_by_search(items, query, i) by {
        let label = items[i].label@;
        assert(matching_prefix(items, query, items.len() as int).contains(i as usize) <==> (i < items.len()
            && matches_query(items[i].label@, query)));
        if query.len() > 0 {
            lemma_matches_query_stands_in(label, query);
        }
    }
}

/// An empty query keeps every item, in order.
pub proof fn law_empty_query_matches_every_item(items: Seq<SelectItem>)
    requires
        items.len() <= usize::MAX,
    ensures
        matching(items, Seq::empty()) == Seq::new(items.len(), |i: int| i as usize),
{
    lemma_matching_prefix_all(items, items.len() as int);
}

proof fn lemma_matching_prefix_all(items: Seq<SelectItem>, n: int)
    requires
        0 <= n <= items.len(),
    ensures
        matching_prefix(items, Seq::empty(), n) == Seq::new(n as nat, |i: int| i as usize),
    decreases n,
{
    if n > 0 {
        lemma_matching_prefix_all(items, n - 1);
        assert(matching_prefix(items, Seq::empty(), n) =~= Seq::new(n as nat, |i: int| i as usize));
    }
}

/// The label split round the first match of the query: the text before in
/// the base role, the match in the match role, the text after in the base
/// role, leaving out empty parts; the whole label in the base role when the
/// query is empty or does not stand in it.
pub open spec fn highlight_model(label: Seq<char>, query: Seq<char>, base: Role) -> Seq<(Seq<char>, Role)> {
    if query.len() == 0 {
        seq![(label, base)]
    } else {
        match first_occurrence(lower_text(label), lower_text(query)) {
            None => seq![(label, base)],
            Some(start) => {
                let end = start + query.len();
                (if start > 0 {
                    seq![(label.subrange(0, start), base)]
                } else {
                    Seq::empty()
                }) + seq![(label.subrange(start, end), Role::Match)] + (if end < label.len() {
                    seq![(label.subrange(end, label.len() as int), base)]
                } else {
                    Seq::empty()
                })
            },
        }
    }
}

/// The texts of the highlighted parts, in order, make up the label again.
pub proof fn law_highlight_keeps_the_label(label: Seq<char>, query: Seq<char>, base: Role)
    ensures
        joined_texts(highlight_model(label, query, base)) == label,
{
    let parts = highlight_model(label, query, base);
    if query.len() == 0 {
        lemma_joined_texts_single((label, base));
    } else {
        match first_occurrence(lower_text(label), lower_text(query)) {
            None => {
                lemma_joined_texts_single((label, base));
            },
            Some(start) => {
                lemma_first_occurrence_occurs(lower_text(label), lower_text(query), 0);
                let end = start + query.len();
                let before: Seq<(Seq<char>, Role)> = if start > 0 {
                    seq![(label.subrange(0, start), base)]
                } else {
                    Seq::empty()
                };
                let middle = seq![(label.subrange(start, end), Role::Match)];
                let after: Seq<(Seq<char>, Role)> = if end < label.len() {
                    seq![(label.subrange(end, label.len() as int), base)]
                } else {
                    Seq::empty()
                };
                assert(parts == before + middle + after);
                lemma_joined_texts_concat(before + middle, after);
                lemma_joined_texts_concat(before, middle);
                if start > 0 {
                    lemma_joined_texts_single((label.subrange(0, start), base));
                } else {
                    assert(joined_texts(before) =~= label.subrange(0, start));
                }
                lemma_joined_texts_single((label.subrange(start, end), Role::Match));
                if end < label.len() {
                    lemma_joined_texts_single((label.subrange(end, label.len() as int), base));
                } else {
                    assert(joined_texts(after) =~= label.subrange(end, label.len() as int));
                }
                assert(label.subrange(0, start) + label.subrange(start, end) + label.subrange(end, label.len() as int)
                    =~= label);
            },
        }
    }
}

/// The texts of some parts one after another.
pub open spec fn joined_texts(parts: Seq<(Seq<char>, Role)>) -> Seq<char>
    decreases parts.len(),
{
    if parts.len() == 0 {
        Seq::empty()
    } else {
        joined_texts(parts.drop_last()) + parts.last().0
    }
}

proof fn lemma_joined_texts_single(part: (Seq<char>, Role))
    ensures
        joined_texts(seq![part]) == part.0,
{
    let single = seq![part];
    assert(single.drop_last() =~= Seq::<(Seq<char>, Role)>::empty());
    assert(joined_texts(single.drop_last()) == Seq::<char>::empty());
    assert(single.last() == part);
    assert(joined_texts(single) == joined_texts(single.drop_last()) + single.last().0);
    assert(Seq::<char>::empty() + part.0 =~= part.0);
}

proof fn lemma_joined_texts_concat(a: Seq<(Seq<char>, Role)>, b: Seq<(Seq<char>, Role)>)
    ensures
        joined_texts(a + b) == joined_texts(a) + joined_texts(b),
    decreases b.len(),
{
    if b.len() == 0 {
        assert(a + b =~= a);
        assert(joined_texts(a) + joined_texts(b) =~= joined_texts(a));
    } else {
        lemma_joined_texts_concat(a, b.drop_last());
        assert((a + b).drop_last() =~= a + b.drop_last());
        assert(joined_texts(a) + joined_texts(b) =~= joined_texts(a) + joined_texts(b.drop_last()) + b.last().0);
    }
}

/// A found occurrence stands where it is reported.
proof fn lemma_first_occurrence_occurs(hay: Seq<char>, needle: Seq<char>, from: int)
    ensures
        first_occurrence_from(hay, needle, from) matches Some(at) ==> occurs_at(hay, needle, at) && from <= at,
    decreases hay.len() + 1 - from,
{
    if !(from < 0 || from + needle.len() > hay.len()) && !occurs_at(hay, needle, from) {
        lemma_first_occurrence_occurs(hay, needle, from + 1);
    }
}

/// The text and role of each span.
pub open spec fn spans_model(spans: Seq<Span>) -> Seq<(Seq<char>, Role)> {
    Seq::new(spans.len(), |i: int| (spans[i].text@, spans[i].role))
}

/// A result row as the list shows it: the item's label with its match of
/// `query` highlighted, marked when it stands on the selection.
pub open spec fn shown_result(row: ListRow, item: SelectItem, query: Seq<char>, selected: bool) -> bool {
    &&& spans_model(row.spans@) == highlight_model(
        item.label@,
        query,
        if selected {
            Role::Selected
        } else {
            Role::Normal
        },
    )
    &&& row.selected == selected
    &&& row.checked is None
}

/// How many matches a window of `visible` rows from `start` shows out of
/// `total`.
pub open spec fn results_in_window(start: int, total: int, visible: int) -> int {
    if start >= total {
        0
    } else if total - start < visible {
        total - start
    } else {
        visible
    }
}

/// The spans of a label with its match of the query highlighted.
pub fn highlight_match(label: &str, query: &str, selected: bool) -> (spans: Vec<Span>)
    ensures
        spans_model(spans@) == highlight_model(label@, query@, if selected { Role::Selected } else { Role::Normal }),
{
    let base = if selected {
        Role::Selected
    } else {
        Role::Normal
    };
    let mut spans: Vec<Span> = Vec::new();
    if query.unicode_len() == 0 {
        spans.push(Span::new(label, base));
        assert(spans_model(spans@) =~= highlight_model(label@, query@, base));
        return spans;
    }
    let hay = lower_chars(label);
    let needle = lower_chars(query);
    let start = match find_chars(&hay, &needle) {
        Some(start) => start,
        None => {
            spans.push(Span::new(label, base));
            assert(spans_model(spans@) =~= highlight_model(label@, query@, base));
            return spans;
        },
    };
    let chars = chars_of(label);
    let count = chars.len();
    assert(hay@.len() == count);
    let end = start + needle.len();
    assert(end <= chars@.len());
    if start > 0 {
        spans.push(Span::new(string_of_range(&chars, 0, start), base));
    }
    spans.push(Span::new(string_of_range(&chars, start, end), Role::Match));
    if end < chars.len() {
        spans.push(Span::new(string_of_range(&chars, end, chars.len()), base));
    }
    assert(spans_model(spans@) =~= highlight_model(label@, query@, base));
    spans
}

/// What a key asks of a search list.
pub enum SearchIntent {
    /// Move the selection by a number of matches.
    Move(int),
    Submit,
    Cancel,
    /// Edit the query.
    Edit,
}

/// Arrows and plain `k`/`j` move by one, pages by the visible rows, Enter
/// submits, Esc cancels; every other key edits the query.
/// The selection kept among `count` new matches: the same place when it
/// is still there, else the last match, or the top when there is none.
pub open spec fn clamped_selection(selection: nat, count: nat) -> nat {
    if count == 0 {
        0
    } else if selection < count {
        selection
    } else {
        (count - 1) as nat
    }
}

pub open spec fn search_intent(key: KeyEvent, visible: int) -> SearchIntent {
    let plain = key.modifiers.0 == 0;
    match key.key {
        Key::Up => SearchIntent::Move(-1),
        Key::Down => SearchIntent::Move(1),
        Key::PageUp => SearchIntent::Move(-page_step(visible)),
        Key::PageDown => SearchIntent::Move(page_step(visible)),
        Key::Char(c) => if plain && (c == 'k' || c == 'K') {
            SearchIntent::Move(-1)
        } else if plain && (c == 'j' || c == 'J') {
            SearchIntent::Move(1)
        } else {
            SearchIntent::Edit
        },
        Key::Enter => SearchIntent::Submit,
        Key::Esc => SearchIntent::Cancel,
        _ => SearchIntent::Edit,
    }
}

/// The filtered rows: the items, the indices of the matching ones, and the
/// selection among the matches.
struct MatchList {
    id: WidgetId,
    header: Vec<Span>,
    items: Vec<SelectItem>,
    matches: Vec<usize>,
    selected: usize,
    top: usize,
    page_size: usize,
    wrap: bool,
}

impl MatchList {
    #[verifier::type_invariant]
    spec fn well_formed(self) -> bool {
        &&& self.page_size >= 1
        &&& self.matches@.len() == 0 ==> self.selected == 0
        &&& self.matches@.len() > 0 ==> self.selected < self.matches@.len()
        &&& forall|k: int| 0 <= k < self.matches@.len() ==> #[trigger] self.matches@[k] < self.items@.len()
    }

    spec fn visible_len(&self) -> int {
        visible_rows(self.page_size as int, self.matches@.len() as int)
    }

    fn visible_len_of(&self) -> (visible: usize)
        ensures
            visible == self.visible_len(),
            visible >= 1,
    {
        proof {
            use_type_invariant(self);
        }
        let shown = if self.page_size < self.matches.len() {
            self.page_size
        } else {
            self.matches.len()
        };
        if shown < 1 {
            1
        } else {
            shown
        }
    }

    /// Keep the window round the selection.
    fn ensure_visible(&mut self)
        ensures
            final(self).id == old(self).id,
            final(self).header == old(self).header,
            final(self).items == old(self).items,
            final(self).matches == old(self).matches,
            final(self).selected == old(self).selected,
            final(self).page_size == old(self).page_size,
            final(self).wrap == old(self).wrap,
            old(self).matches@.len() == 0 ==> final(self).top == 0,
            old(self).matches@.len() > 0 ==> final(self).top == window_top(
                old(self).selected as int,
                old(self).top as int,
                old(self).visible_len(),
                old(self).matches@.len() as int,
            ),
    {
        proof {
            use_type_invariant(&*self);
        }
        if self.matches.len() == 0 {
            self.top = 0;
            return;
        }
        let visible = self.visible_len_of();
        self.top = scroll_window(self.selected, self.top, visible, self.matches.len());
    }

    /// Keep the matches of `query`, the selection clamped to them.
    fn refilter(&mut self, query: &str)
        ensures
            final(self).id == old(self).id,
            final(self).header == old(self).header,
            final(self).items == old(self).items,
            final(self).page_size == old(self).page_size,
            final(self).wrap == old(self).wrap,
            final(self).matches@ == matching(old(self).items@, query@),
            final(self).matches@.len() == 0 ==> final(self).selected == 0,
            final(self).matches@.len() > 0 ==> final(self).selected == if old(self).selected < final(self).matches@.len() {
                old(self).selected as int
            } else {
                final(self).matches@.len() - 1
            },
    {
        proof {
            use_type_invariant(&*self);
        }
        let mut matches: Vec<usize> = Vec::new();
        let mut i: usize = 0;
        while i < self.items.len()
            invariant
                i <= self.items@.len(),
                matches@ == matching_prefix(self.items@, query@, i as int),
            decreases self.items@.len() - i,
        {
            if label_matches(self.items[i].label.as_str(), query) {
                matches.push(i);
            }
            i += 1;
        }
        proof {
            lemma_matching_prefix_bounded(self.items@, query@, self.items@.len() as int);
        }
        let selected = if matches.len() == 0 {
            0
        } else if self.selected < matches.len() {
            self.selected
        } else {
            matches.len() - 1
        };
        self.selected = 0;
        self.matches = matches;
        self.selected = selected;
        self.ensure_visible();
    }

    /// Move the selection as `moved_index` says; an impossible or empty move
    /// is ignored.
    fn move_by(&mut self, delta: isize) -> (reaction: Reaction)
        ensures
            final(self).id == old(self).id,
            final(self).header == old(self).header,
            final(self).items == old(self).items,
            final(self).matches == old(self).matches,
            final(self).page_size == old(self).page_size,
            final(self).wrap == old(self).wrap,
            match moved_index(old(self).selected as int, old(self).matches@.len() as int, delta as int, old(self).wrap) {
                Some(next) => if next == old(self).selected {
                    reaction is Ignored && final(self).selected == old(self).selected
                } else {
                    reaction is Changed && final(self).selected == next
                },
                None => reaction is Ignored && final(self).selected == old(self).selected,
            },
    {
        proof {
            use_type_invariant(&*self);
        }
        let next = match move_index(self.selected, self.matches.len(), delta, self.wrap) {
            Some(next) => next,
            None => return Reaction::Ignored,
        };
        if next == self.selected {
            return Reaction::Ignored;
        }
        self.selected = next;
        self.ensure_visible();
        Reaction::Changed
    }

    fn selected_item(&self) -> (item: Option<&SelectItem>)
        ensures
            self.matches@.len() == 0 ==> item is None,
            self.matches@.len() > 0 ==> item == Some(&self.items@[self.matches@[self.selected as int] as int]),
    {
        proof {
            use_type_invariant(self);
        }
        if self.matches.len() == 0 {
            None
        } else {
            Some(&self.items[self.matches[self.selected]])
        }
    }
}

/// A list filtered by a query typed into an input.
pub struct SearchSelect {
    list: MatchList,
    input: TextInput,
}

impl SearchSelect {
    pub closed spec fn identity_text(&self) -> Seq<char> {
        self.list.id@
    }

    pub closed spec fn choices(&self) -> Seq<SelectItem> {
        self.list.items@
    }

    /// The indices of the matching items.
    pub closed spec fn matched(&self) -> Seq<usize> {
        self.list.matches@
    }

    /// The selection, among the matches.
    pub closed spec fn selection(&self) -> nat {
        self.list.selected as nat
    }

    pub closed spec fn window_start(&self) -> nat {
        self.list.top as nat
    }

    pub closed spec fn rows_per_page(&self) -> nat {
        self.list.page_size as nat
    }

    pub closed spec fn wraps(&self) -> bool {
        self.list.wrap
    }

    pub closed spec fn header_spans(&self) -> Seq<Span> {
        self.list.header@
    }

    /// The input that holds the query.
    pub closed spec fn query_input(&self) -> TextInput {
        self.input
    }

    pub open spec fn query_text(&self) -> Seq<char> {
        self.query_input().text()
    }

    pub open spec fn visible_len(&self) -> int {
        visible_rows(self.rows_per_page() as int, self.matched().len() as int)
    }

    /// The item the selection stands on.
    pub open spec fn selected_choice(&self) -> Option<SelectItem> {
        if self.matched().len() > 0 {
            Some(self.choices()[self.matched()[self.selection() as int] as int])
        } else {
            None
        }
    }

    /// The rows of the results list: the matches in the window, each with
    /// its label highlighted against the query.
    pub open spec fn shows_results(&self, rows: Seq<ListRow>) -> bool {
        &&& rows.len() == results_in_window(
            self.window_start() as int,
            self.matched().len() as int,
            self.visible_len(),
        )
        &&& forall|k: int|
            0 <= k < rows.len() ==> shown_result(
                #[trigger] rows[k],
                self.choices()[self.matched()[self.window_start() + k] as int],
                self.query_text(),
                self.window_start() + k == self.selection(),
            )
    }

    /// A search over `items`: every item matches the empty query, the
    /// first is selected, nine rows at a time, wrapping.
    pub fn new<T: IntoText>(id: T, items: Vec<SelectItem>) -> (search: Self)
        ensures
            search.query_input().placeholder_text() is None,
            search.identity_text() == id.text_chars(),
            search.choices() == items@,
            search.matched() == Seq::new(items@.len(), |i: int| i as usize),
            search.selection() == 0,
            search.window_start() == 0,
            search.rows_per_page() == DEFAULT_PAGE_SIZE,
            search.wraps(),
            search.query_text().len() == 0,
            search.query_input().prompt_spans().len() == 1,
            search.query_input().prompt_spans()[0].text@ == "search: "@,
    {
        let id = WidgetId::owned(id);
        let mut input_id = String::new();
        push_str(&mut input_id, id.as_str());
        push_str(&mut input_id, "/query");
        let input = TextInput::new(input_id).with_prompt("search: ");
        let mut matches: Vec<usize> = Vec::new();
        let mut i: usize = 0;
        while i < items.len()
            invariant
                i <= items@.len(),
                matches@ == Seq::new(i as nat, |k: int| k as usize),
            decreases items@.len() - i,
        {
            matches.push(i);
            assert(matches@ =~= Seq::new((i + 1) as nat, |k: int| k as usize));
            i += 1;
        }
        let list = MatchList {
            id,
            header: Vec::new(),
            items,
            matches,
            selected: 0,
            top: 0,
            page_size: DEFAULT_PAGE_SIZE,
            wrap: true,
        };
        SearchSelect { list, input }
    }

    /// The prompt of the query input.
    pub fn with_prompt<T: IntoText>(self, prompt: T) -> (search: Self)
        ensures
            search.identity_text() == self.identity_text(),
            search.rows_per_page() == self.rows_per_page(),
            search.wraps() == self.wraps(),
            search.query_input().placeholder_text() == self.query_input().placeholder_text(),
            search.query_input().prompt_spans().len() == 1,
            search.query_input().prompt_spans()[0].text@ == prompt.text_chars(),
            search.query_text() == self.query_text(),
            search.choices() == self.choices(),
            search.matched() == self.matched(),
            search.selection() == self.selection(),
    {
        let mut search = self;
        search.input.set_prompt(prompt);
        search
    }

    pub fn with_placeholder<T: IntoText>(self, placeholder: T) -> (search: Self)
        ensures
            search.identity_text() == self.identity_text(),
            search.rows_per_page() == self.rows_per_page(),
            search.wraps() == self.wraps(),
            search.query_input().prompt_spans() == self.query_input().prompt_spans(),
            search.query_input().placeholder_text() == Some(placeholder.text_chars()),
            search.query_text() == self.query_text(),
            search.choices() == self.choices(),
            search.matched() == self.matched(),
            search.selection() == self.selection(),
    {
        let SearchSelect { list, input } = self;
        SearchSelect { list, input: input.with_placeholder(placeholder) }
    }

    pub fn with_header<T: IntoText>(self, header: T) -> (search: Self)
        ensures
            search.header_spans().len() == 1,
            search.header_spans()[0].text@ == header.text_chars(),
            search.header_spans()[0].role == Role::Prompt,
            search.choices() == self.choices(),
            search.matched() == self.matched(),
            search.selection() == self.selection(),
    {
        let mut search = self;
        search.set_header(header);
        search
    }

    pub fn set_header<T: IntoText>(&mut self, header: T)
        ensures
            final(self).header_spans().len() == 1,
            final(self).header_spans()[0].text@ == header.text_chars(),
            final(self).header_spans()[0].role == Role::Prompt,
            final(self).choices() == old(self).choices(),
            final(self).matched() == old(self).matched(),
            final(self).selection() == old(self).selection(),
            final(self).query_input() == old(self).query_input(),
    {
        let mut spans: Vec<Span> = Vec::new();
        spans.push(Span::new(header, Role::Prompt));
        self.set_header_spans(spans);
    }

    pub fn with_header_spans(self, header: Vec<Span>) -> (search: Self)
        ensures
            search.header_spans() == header@,
            search.choices() == self.choices(),
            search.matched() == self.matched(),
            search.selection() == self.selection(),
    {
        let mut search = self;
        search.set_header_spans(header);
        search
    }

    pub fn set_header_spans(&mut self, header: Vec<Span>)
        ensures
            final(self).header_spans() == header@,
            final(self).choices() == old(self).choices(),
            final(self).matched() == old(self).matched(),
            final(self).selection() == old(self).selection(),
            final(self).query_input() == old(self).query_input(),
    {
        proof {
            use_type_invariant(&self.list);
        }
        self.list.header = header;
    }

    /// Show `page_size` matches at a time (at least one).
    pub fn with_page_size(self, page_size: usize) -> (search: Self)
        ensures
            search.rows_per_page() == if page_size > 1 { page_size } else { 1 },
            search.choices() == self.choices(),
            search.matched() == self.matched(),
            search.selection() == self.selection(),
            search.wraps() == self.wraps(),
            search.identity_text() == self.identity_text(),
            search.query_input() == self.query_input(),
    {
        let SearchSelect { list, input } = self;
        proof {
            use_type_invariant(&list);
        }
        let mut list = list;
        list.page_size = if page_size > 1 {
            page_size
        } else {
            1
        };
        list.ensure_visible();
        SearchSelect { list, input }
    }

    pub fn with_wrap(self, wrap: bool) -> (search: Self)
        ensures
            search.identity_text() == self.identity_text(),
            search.query_input() == self.query_input(),
            search.wraps() == wrap,
            search.choices() == self.choices(),
            search.matched() == self.matched(),
            search.selection() == self.selection(),
            search.rows_per_page() == self.rows_per_page(),
    {
        let SearchSelect { list, input } = self;
        proof {
            use_type_invariant(&list);
        }
        let mut list = list;
        list.wrap = wrap;
        SearchSelect { list, input }
    }

    /// Select match `selected`, or the last match past the end.
    pub fn with_selected_match_index(self, selected: usize) -> (search: Self)
        ensures
            search.identity_text() == self.identity_text(),
            search.rows_per_page() == self.rows_per_page(),
            search.wraps() == self.wraps(),
            search.query_input() == self.query_input(),
            search.choices() == self.choices(),
            search.matched() == self.matched(),
            self.matched().len() > 0 ==> search.selection() == if selected < self.matched().len() {
                selected as nat
            } else {
                (self.matched().len() - 1) as nat
            },
            self.matched().len() == 0 ==> search.selection() == self.selection(),
    {
        let SearchSelect { list, input } = self;
        proof {
            use_type_invariant(&list);
        }
        let mut list = list;
        if list.matches.len() > 0 {
            list.selected = if selected < list.matches.len() {
                selected
            } else {
                list.matches.len() - 1
            };
            list.ensure_visible();
        }
        SearchSelect { list, input }
    }

    pub fn query(&self) -> (query: &str)
        ensures
            query@ == self.query_text(),
    {
        self.input.value()
    }

    pub fn matched_indices(&self) -> (indices: &[usize])
        ensures
            indices@ == self.matched(),
    {
        self.list.matches.as_slice()
    }

    pub fn selected_match_index(&self) -> (index: Option<usize>)
        ensures
            self.matched().len() == 0 ==> index is None,
            self.matched().len() > 0 ==> index == Some(self.selection() as usize),
    {
        if self.list.matches.len() == 0 {
            None
        } else {
            Some(self.list.selected)
        }
    }

    pub fn selected_item(&self) -> (item: Option<&SelectItem>)
        ensures
            item matches Some(found) ==> self.selected_choice() == Some(*found),
            item is None ==> self.selected_choice() is None,
    {
        self.list.selected_item()
    }

    /// Hand the event to the query input; a changed query filters the items
    /// again.
    fn handle_input(&mut self, event: Event, cx: &mut Context) -> (reaction: Reaction)
        requires
            !(event matches Event::Key(k) && (k.key == Key::Enter || k.key == Key::Esc)),
        ensures
            ({
                let (next, outcome) = input_step(old(self).query_input().state(), event);
                &&& final(self).query_input().state() == next
                &&& outcome is Changed ==> reaction is Changed && final(self).matched() == matching(
                    old(self).choices(),
                    next.text,
                )
                &&& !(outcome is Changed) ==> reaction is Ignored && final(self).matched() == old(self).matched()
                    && final(self).selection() == old(self).selection()
                &&& outcome is Changed ==> final(self).selection() == clamped_selection(
                    old(self).selection(),
                    final(self).matched().len(),
                )
            }),
            final(self).choices() == old(self).choices(),
            final(self).identity_text() == old(self).identity_text(),
            final(self).rows_per_page() == old(self).rows_per_page(),
            final(self).wraps() == old(self).wraps(),
            final(cx).lists() == old(cx).lists(),
    {
        let handled = self.input.handle(event, cx);
        match handled {
            Reaction::Changed => {
                let query = self.input.value();
                self.list.refilter(query);
                Reaction::Changed
            },
            _ => Reaction::Ignored,
        }
    }

    fn list_view(&self) -> (list: ListView)
        ensures
            list.total == self.matched().len(),
            list.requested_start == self.window_start(),
            self.shows_results(list.rows@),
    {
        proof {
            use_type_invariant(&self.list);
        }
        let visible = self.list.visible_len_of();
        let query = self.input.value();
        let mut rows: Vec<ListRow> = Vec::new();
        let mut index = self.list.top;
        let mut shown: usize = 0;
        while index < self.list.matches.len() && shown < visible
            invariant
                shown <= visible,
                visible == self.visible_len(),
                visible >= 1,
                index == self.list.top + shown,
                shown == 0 || index <= self.list.matches@.len(),
                rows@.len() == shown,
                query@ == self.query_text(),
                forall|k: int| 0 <= k < self.list.matches@.len() ==> #[trigger] self.list.matches@[k] < self.list.items@.len(),
                forall|k: int|
                    0 <= k < shown ==> shown_result(
                        #[trigger] rows@[k],
                        self.list.items@[self.list.matches@[self.list.top + k] as int],
                        query@,
                        self.list.top + k == self.list.selected,
                    ),
            decreases self.list.matches@.len() - index,
        {
            let item_index = self.list.matches[index];
            let item = &self.list.items[item_index];
            let selected = index == self.list.selected;
            let mut row_id = String::new();
            push_str(&mut row_id, self.list.id.as_str());
            push_str(&mut row_id, "/row/");
            push_decimal(&mut row_id, item_index as u64);
            rows.push(ListRow {
                id: Some(ViewId::owned(row_id)),
                spans: highlight_match(item.label.as_str(), query, selected),
                selected,
                checked: None,
            });
            index += 1;
            shown += 1;
        }
        let mut list_id = String::new();
        push_str(&mut list_id, self.list.id.as_str());
        push_str(&mut list_id, "/results");
        let mut help: Vec<Span> = Vec::new();
        help.push(Span::new("type filter | enter submit | esc cancel", Role::Dim));
        let selected = if self.list.matches.len() == 0 {
            None
        } else if self.list.selected >= self.list.top {
            Some(self.list.selected - self.list.top)
        } else {
            Some(0)
        };
        ListView {
            id: Some(ViewId::owned(list_id)),
            header: self.list.header.clone(),
            rows,
            selected,
            requested_start: self.list.top,
            total: self.list.matches.len(),
            max_visible: None,
            help,
        }
    }
}

impl Widget for SearchSelect {
    open spec fn identity(&self) -> Seq<char> {
        self.identity_text()
    }

    open spec fn held_value(&self) -> Option<ValueModel> {
        match self.selected_choice() {
            Some(item) => Some(item.value@),
            None => None,
        }
    }

    /// The value of the match selected after the event: moved to, kept, or
    /// the same place among the new matches of an edited query.
    open spec fn holds_after(&self, event: Event, layout: Seq<ListPresentation>, value: Option<ValueModel>) -> bool {
        let edited = input_step(self.query_input().state(), event);
        let refiltered = if edited.1 is Changed {
            let matched = matching(self.choices(), edited.0.text);
            (matched, clamped_selection(self.selection(), matched.len()))
        } else {
            (self.matched(), self.selection())
        };
        let (matched, selection) = match event {
            Event::Key(key) => match search_intent(key, self.visible_len()) {
                SearchIntent::Move(delta) => (
                    self.matched(),
                    match moved_index(self.selection() as int, self.matched().len() as int, delta, self.wraps()) {
                        Some(next) => next as nat,
                        None => self.selection(),
                    },
                ),
                SearchIntent::Edit => refiltered,
                _ => (self.matched(), self.selection()),
            },
            Event::Paste(_) => refiltered,
            _ => (self.matched(), self.selection()),
        };
        value == if matched.len() > 0 {
            Some(self.choices()[matched[selection as int] as int].value@)
        } else {
            None::<ValueModel>
        }
    }

    open spec fn reacts(&self, event: Event, layout: Seq<ListPresentation>, reaction: Reaction) -> bool {
        let edited = if input_step(self.query_input().state(), event).1 is Changed {
            reaction is Changed
        } else {
            reaction is Ignored
        };
        match event {
            Event::Key(key) => match search_intent(key, self.visible_len()) {
                SearchIntent::Move(delta) => match moved_index(
                    self.selection() as int,
                    self.matched().len() as int,
                    delta,
                    self.wraps(),
                ) {
                    Some(next) => if next == self.selection() {
                        reaction is Ignored
                    } else {
                        reaction is Changed
                    },
                    None => reaction is Ignored,
                },
                SearchIntent::Submit => match self.selected_choice() {
                    Some(item) => reaction matches Reaction::Submit(v) && v@ == item.value@,
                    None => reaction is Ignored,
                },
                SearchIntent::Cancel => reaction is Cancel,
                SearchIntent::Edit => edited,
            },
            Event::Paste(_) => edited,
            _ => reaction is Ignored,
        }
    }

    fn id(&self) -> (id: WidgetId) {
        self.list.id.clone()
    }

    /// Move through the matches, submit the selected item's value or cancel
    /// as [`search_intent`] says; other keys and pastes edit the query,
    /// which filters the items again.
    fn handle(&mut self, event: Event, cx: &mut Context) -> (reaction: Reaction)
        ensures
            final(self).choices() == old(self).choices(),
            final(self).identity_text() == old(self).identity_text(),
            match event {
                Event::Key(key) => match search_intent(key, old(self).visible_len()) {
                    SearchIntent::Move(delta) => final(self).matched() == old(self).matched() && final(self).query_input()
                        == old(self).query_input() && match moved_index(
                        old(self).selection() as int,
                        old(self).matched().len() as int,
                        delta,
                        old(self).wraps(),
                    ) {
                        Some(next) => (next == old(self).selection() ==> reaction is Ignored) && (next
                            != old(self).selection() ==> reaction is Changed && final(self).selection() == next),
                        None => reaction is Ignored,
                    },
                    SearchIntent::Submit => match old(self).selected_choice() {
                        Some(item) => reaction matches Reaction::Submit(v) && v@ == item.value@,
                        None => reaction is Ignored,
                    },
                    SearchIntent::Cancel => reaction is Cancel,
                    SearchIntent::Edit => {
                        let (next, outcome) = input_step(old(self).query_input().state(), event);
                        &&& final(self).query_input().state() == next
                        &&& outcome is Changed ==> reaction is Changed && final(self).matched() == matching(
                            old(self).choices(),
                            next.text,
                        )
                        &&& !(outcome is Changed) ==> reaction is Ignored && final(self).matched() == old(self).matched()
                    },
                },
                Event::Paste(_) => {
                    let (next, outcome) = input_step(old(self).query_input().state(), event);
                    &&& final(self).query_input().state() == next
                    &&& outcome is Changed ==> reaction is Changed && final(self).matched() == matching(
                        old(self).choices(),
                        next.text,
                    )
                    &&& !(outcome is Changed) ==> reaction is Ignored && final(self).matched() == old(self).matched()
                },
                _ => reaction is Ignored,
            },
    {
        let key = match &event {
            Event::Key(key) => key.clone(),
            Event::Paste(_) => return self.handle_input(event, cx),
            _ => return Reaction::Ignored,
        };
        let visible = self.list.visible_len_of();
        match key.key {
            Key::Up => self.list.move_by(-1),
            Key::Down => self.list.move_by(1),
            Key::PageUp => {
                let delta = visible_delta(visible);
                self.list.move_by(-delta)
            },
            Key::PageDown => self.list.move_by(visible_delta(visible)),
            Key::Char(c) => {
                if no_modifiers(&key) && (c == 'k' || c == 'K') {
                    self.list.move_by(-1)
                } else if no_modifiers(&key) && (c == 'j' || c == 'J') {
                    self.list.move_by(1)
                } else {
                    self.handle_input(event, cx)
                }
            },
            Key::Enter => match self.list.selected_item() {
                Some(item) => Reaction::Submit(item.value.clone()),
                None => Reaction::Ignored,
            },
            Key::Esc => Reaction::Cancel,
            _ => self.handle_input(event, cx),
        }
    }

    /// The query input above the list of the matches in view.
    open spec fn shows(&self, cx: ViewContext, view: View) -> bool {
        view matches View::Stack(parts) && parts@.len() == 2 && (parts@[0] matches View::TextInput(input)
            && input.value@ == self.query_text() && input.cursor == self.query_input().cursor_index()) && (
        parts@[1] matches View::List(list) && list.total == self.matched().len() && list.requested_start
            == self.window_start() && self.shows_results(list.rows@))
    }

    fn view(&self, cx: &ViewContext) -> (view: View) {
        let mut parts: Vec<View> = Vec::new();
        parts.push(View::TextInput(self.input.input_view()));
        parts.push(View::List(self.list_view()));
        View::Stack(parts)
    }

    fn current_value(&self) -> (value: Option<Value>) {
        match self.list.selected_item() {
            Some(item) => Some(item.value.clone()),
            None => None,
        }
    }
}

} // verus!
