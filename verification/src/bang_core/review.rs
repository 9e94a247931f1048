//! A review list: every row keeps its own confirm/deny/unset state, rows
//! denied from the start can be hidden, and the review ends with a submit,
//! a leave or an application action.

use vstd::prelude::*;
use vstd::view::View as _;

use crate::bang_core::event::{Event, Key, KeyEvent, Modifiers};
use crate::bang_core::ids::{ViewId, WidgetId};
use crate::bang_core::navigation::{move_index, moved_index, no_modifiers, scroll_window, visible_delta, window_top};
use crate::bang_core::render::{ListPresentation, ListRow, ListView, Role, Span, View, ViewContext};
use crate::bang_core::select::{SelectItem, DEFAULT_PAGE_SIZE};
use crate::bang_core::value::{fields_model, list_model, Value, ValueModel};
use crate::bang_core::widget::{Context, Reaction, Widget};
use crate::text::{join_with, strings_view, ascii_lower, join_strings, push_char, push_decimal, push_str, to_ascii_lower, IntoText};

verus! {

/// The state of a reviewed row.
#[derive(Clone, Copy, Debug, Eq, PartialEq, Structural)]
pub enum ReviewState {
    Unconfirmed,
    Confirmed,
    Denied,
}

impl Default for ReviewState {
    fn default() -> (state: Self)
        ensures
            state == ReviewState::Unconfirmed,
    {
        ReviewState::Unconfirmed
    }
}

/// The name of a review state.
pub open spec fn state_name(state: ReviewState) -> Seq<char> {
    match state {
        ReviewState::Unconfirmed => "unconfirmed"@,
        ReviewState::Confirmed => "confirmed"@,
        ReviewState::Denied => "denied"@,
    }
}

/// The state a name stands for, if any.
pub open spec fn state_named(name: Seq<char>) -> Option<ReviewState> {
    if name == "unconfirmed"@ {
        Some(ReviewState::Unconfirmed)
    } else if name == "confirmed"@ {
        Some(ReviewState::Confirmed)
    } else if name == "denied"@ {
        Some(ReviewState::Denied)
    } else {
        None
    }
}

/// The review states are reported as `unconfirmed`, `confirmed` and
/// `denied`, and each name reads back as its state.
pub proof fn law_state_names(state: ReviewState)
    ensures
        state_name(ReviewState::Unconfirmed) == "unconfirmed"@,
        state_name(ReviewState::Confirmed) == "confirmed"@,
        state_name(ReviewState::Denied) == "denied"@,
        state_named(state_name(state)) == Some(state),
{
    reveal_strlit("unconfirmed");
    reveal_strlit("confirmed");
    reveal_strlit("denied");
    assert("unconfirmed"@[0] != "confirmed"@[0] && "unconfirmed"@[0] != "denied"@[0]);
    assert("confirmed"@[0] != "denied"@[0]);
}

/// The message for a name that is no review state.
pub open spec fn invalid_state_message(value: Seq<char>) -> Seq<char> {
    "invalid review state '"@ + value + "', expected unconfirmed, confirmed, or denied"@
}

impl ReviewState {
    pub fn as_str(self) -> (name: &'static str)
        ensures
            name@ == state_name(self),
    {
        match self {
            ReviewState::Unconfirmed => "unconfirmed",
            ReviewState::Confirmed => "confirmed",
            ReviewState::Denied => "denied",
        }
    }

    /// The next state: unconfirmed, confirmed, denied, and round again.
    pub fn cycle(self) -> (next: Self)
        ensures
            next == match self {
                ReviewState::Unconfirmed => ReviewState::Confirmed,
                ReviewState::Confirmed => ReviewState::Denied,
                ReviewState::Denied => ReviewState::Unconfirmed,
            },
    {
        match self {
            ReviewState::Unconfirmed => ReviewState::Confirmed,
            ReviewState::Confirmed => ReviewState::Denied,
            ReviewState::Denied => ReviewState::Unconfirmed,
        }
    }

    /// The marker shown before a row: `[*] `, `[y] ` or `[x] `.
    pub fn marker(self) -> (marker: &'static str)
        ensures
            marker@ == match self {
                ReviewState::Unconfirmed => "[*] "@,
                ReviewState::Confirmed => "[y] "@,
                ReviewState::Denied => "[x] "@,
            },
    {
        match self {
            ReviewState::Unconfirmed => "[*] ",
            ReviewState::Confirmed => "[y] ",
            ReviewState::Denied => "[x] ",
        }
    }

    pub fn role(self) -> (role: Role)
        ensures
            role == match self {
                ReviewState::Unconfirmed => Role::Match,
                ReviewState::Confirmed => Role::Success,
                ReviewState::Denied => Role::Error,
            },
    {
        match self {
            ReviewState::Unconfirmed => Role::Match,
            ReviewState::Confirmed => Role::Success,
            ReviewState::Denied => Role::Error,
        }
    }

    /// The state a name stands for; any other name is an error that says
    /// which names there are.
    pub fn from_name(value: &str) -> (state: Result<ReviewState, String>)
        ensures
            match state_named(value@) {
                Some(s) => state == Ok::<ReviewState, String>(s),
                None => state matches Err(message) && message@ == invalid_state_message(value@),
            },
    {
        let text = value.to_owned();
        let unconfirmed = "unconfirmed".to_owned();
        let confirmed = "confirmed".to_owned();
        let denied = "denied".to_owned();
        if text == unconfirmed {
            Ok(ReviewState::Unconfirmed)
        } else if text == confirmed {
            Ok(ReviewState::Confirmed)
        } else if text == denied {
            Ok(ReviewState::Denied)
        } else {
            let mut message = String::new();
            push_str(&mut message, "invalid review state '");
            push_str(&mut message, value);
            push_str(&mut message, "', expected unconfirmed, confirmed, or denied");
            Err(message)
        }
    }
}

/// Cycling three times comes back to the start.
pub proof fn law_cycle_has_period_three(state: ReviewState)
    ensures
        ({
            let next = |s: ReviewState|
                match s {
                    ReviewState::Unconfirmed => ReviewState::Confirmed,
                    ReviewState::Confirmed => ReviewState::Denied,
                    ReviewState::Denied => ReviewState::Unconfirmed,
                };
            next(next(next(state))) == state
        }),
        state_named(state_name(state)) == Some(state),
{
    reveal_strlit("unconfirmed");
    reveal_strlit("confirmed");
    reveal_strlit("denied");
    assert("unconfirmed"@.len() == 11);
    assert("confirmed"@.len() == 9);
    assert("denied"@.len() == 6);
}

/// An application action bound to a character key.
#[derive(Clone, Debug, Eq, PartialEq)]
pub struct ReviewActionBinding {
    key: char,
    name: String,
    help: String,
}

impl ReviewActionBinding {
    pub closed spec fn bound_key(&self) -> char {
        self.key
    }

    pub closed spec fn action_name(&self) -> Seq<char> {
        self.name@
    }

    pub closed spec fn help_text(&self) -> Seq<char> {
        self.help@
    }

    /// An action whose help text is its name.
    pub fn new<T: IntoText>(key: char, name: T) -> (binding: Self)
        ensures
            binding.bound_key() == key,
            binding.action_name() == name.text_chars(),
            binding.help_text() == name.text_chars(),
    {
        let name = name.into_text();
        ReviewActionBinding { key, help: name.clone(), name }
    }

    pub fn with_help<T: IntoText>(self, help: T) -> (binding: Self)
        ensures
            binding.bound_key() == self.bound_key(),
            binding.action_name() == self.action_name(),
            binding.help_text() == help.text_chars(),
    {
        ReviewActionBinding { key: self.key, name: self.name, help: help.into_text() }
    }

    pub fn key(&self) -> (key: char)
        ensures
            key == self.bound_key(),
    {
        self.key
    }

    pub fn name(&self) -> (name: &str)
        ensures
            name@ == self.action_name(),
    {
        self.name.as_str()
    }

    /// `key help`, as the list's help line shows it.
    fn help_line(&self) -> (text: String)
        ensures
            text@ == seq![self.bound_key(), ' '] + self.help_text(),
    {
        let mut text = String::new();
        push_char(&mut text, self.key);
        push_char(&mut text, ' ');
        push_str(&mut text, self.help.as_str());
        assert(text@ =~= seq![self.key, ' '] + self.help@);
        text
    }
}

/// How a review reports its end.
#[derive(Clone, Copy, Debug, Eq, PartialEq, Structural)]
pub enum ReviewOutput {
    /// The rows alone, on submit.
    Rows,
    /// An object naming the exit; leaving submits too when `leave` holds.
    Exits { leave: bool },
}

/// Whether row `i` is listed: every row when removed rows are shown, else
/// the rows not denied at the start.
pub open spec fn row_listed(initial: Seq<ReviewState>, show_removed: bool, i: int) -> bool {
    show_removed || initial[i] != ReviewState::Denied
}

/// The listed rows among the first `n`, in order.
pub open spec fn listed_prefix(initial: Seq<ReviewState>, show_removed: bool, n: int) -> Seq<int>
    decreases n,
{
    if n <= 0 {
        Seq::empty()
    } else if row_listed(initial, show_removed, n - 1) {
        listed_prefix(initial, show_removed, n - 1).push(n - 1)
    } else {
        listed_prefix(initial, show_removed, n - 1)
    }
}

/// The listed rows, in order.
pub open spec fn listed_rows(initial: Seq<ReviewState>, show_removed: bool) -> Seq<int> {
    listed_prefix(initial, show_removed, initial.len() as int)
}

/// The listed rows are increasing row numbers of listed rows.
pub proof fn lemma_listed_prefix(initial: Seq<ReviewState>, show_removed: bool, n: int)
    requires
        0 <= n <= initial.len(),
    ensures
        forall|k: int| 0 <= k < listed_prefix(initial, show_removed, n).len() ==> 0 <= #[trigger] listed_prefix(initial, show_removed, n)[k] < n
            && row_listed(initial, show_removed, listed_prefix(initial, show_removed, n)[k]),
        forall|j: int, k: int| 0 <= j < k < listed_prefix(initial, show_removed, n).len() ==> #[trigger] listed_prefix(initial, show_removed, n)[j] < #[trigger] listed_prefix(initial, show_removed, n)[k],
        forall|i: int| 0 <= i < n && row_listed(initial, show_removed, i) ==> #[trigger] listed_prefix(initial, show_removed, n).contains(i),
        listed_prefix(initial, show_removed, n).len() <= n,
    decreases n,
{
    if n > 0 {
        lemma_listed_prefix(initial, show_removed, n - 1);
        let before = listed_prefix(initial, show_removed, n - 1);
        let after = listed_prefix(initial, show_removed, n);
        assert forall|i: int| 0 <= i < n && row_listed(initial, show_removed, i) implies #[trigger] after.contains(i) by {
            if i < n - 1 {
                assert(before.contains(i));
                let k = choose|k: int| 0 <= k < before.len() && before[k] == i;
                assert(after[k] == i);
            } else {
                assert(after[after.len() - 1] == i);
            }
        }
    }
}

/// The first place of `x` in `xs`.
pub open spec fn place_of(xs: Seq<int>, x: int) -> Option<int> {
    if exists|k: int| 0 <= k < xs.len() && xs[k] == x {
        Some(choose|k: int| 0 <= k < xs.len() && xs[k] == x)
    } else {
        None
    }
}

/// Where a move by `delta` goes among the listed rows: from the place of
/// the selection, as a list move lands; nowhere when the selection is not
/// listed.
pub open spec fn listed_move_target(listed: Seq<int>, selection: int, delta: int, wrap: bool) -> Option<int> {
    match place_of(listed, selection) {
        None => None,
        Some(c) => match moved_index(c, listed.len() as int, delta, wrap) {
            None => None,
            Some(n) => Some(listed[n]),
        },
    }
}

/// The first listed row from place `k` on that is at or after `row`, or the
/// last listed row.
pub open spec fn first_listed_from(listed: Seq<int>, row: int, k: int) -> int
    decreases listed.len() - k,
{
    if k >= listed.len() {
        listed.last()
    } else if listed[k] >= row {
        listed[k]
    } else {
        first_listed_from(listed, row, k + 1)
    }
}

/// Whether report `i` is the first the renderer made for the list `id`.
pub open spec fn first_report_at(lists: Seq<ListPresentation>, id: Seq<char>, i: int) -> bool {
    &&& 0 <= i < lists.len()
    &&& lists[i].id@ == id
    &&& forall|j: int| 0 <= j < i ==> #[trigger] lists[j].id@ != id
}

/// The place a page key goes to by a report.
pub open spec fn reported_page(report: ListPresentation, down: bool) -> Option<usize> {
    if down {
        report.page_down
    } else {
        report.page_up
    }
}

/// The row a jump to `row` lands on: the first listed row from there.
pub open spec fn jump_target(listed: Seq<int>, row: int) -> Option<int> {
    if listed.len() == 0 {
        None
    } else {
        Some(first_listed_from(listed, row, 0))
    }
}

/// The row a page key jumps to by the renderer's report of the list `id`:
/// its page target among the listed rows; nothing without a report.
pub open spec fn reported_jump(lists: Seq<ListPresentation>, id: Seq<char>, listed: Seq<int>, down: bool) -> Option<int> {
    if exists|i: int| first_report_at(lists, id, i) {
        let i = choose|i: int| first_report_at(lists, id, i);
        match reported_page(lists[i], down) {
            Some(p) => if p < listed.len() {
                Some(listed[p as int])
            } else {
                None
            },
            None => None,
        }
    } else {
        None
    }
}

/// How far a page moves: the rows in view, at most `isize::MAX`.
pub open spec fn page_delta(listed: int, rows_per_page: int) -> int {
    let visible = if rows_per_page < listed {
        rows_per_page
    } else if listed < 1 {
        1
    } else {
        listed
    };
    if visible <= isize::MAX {
        visible
    } else {
        isize::MAX as int
    }
}

/// The parts of the review's help line.
pub open spec fn help_parts(output: ReviewOutput, actions: Seq<ReviewActionBinding>) -> Seq<Seq<char>> {
    seq!["space cycle"@, "y confirm"@, "x deny"@, "u unset"@, "r removed"@, "enter submit"@] + (match output {
        ReviewOutput::Exits { .. } => actions.map_values(|a: ReviewActionBinding| seq![a.bound_key(), ' '] + a.help_text()),
        ReviewOutput::Rows => Seq::empty(),
    }) + seq![
        if output == (ReviewOutput::Exits { leave: true }) {
            "esc leave"@
        } else {
            "esc cancel"@
        },
    ]
}

/// The row object a review reports: label, state and value.
pub open spec fn row_model(item: SelectItem, state: ReviewState) -> ValueModel {
    ValueModel::Object(
        seq![
            ("label"@, ValueModel::Text(item.label@)),
            ("state"@, ValueModel::Text(state_name(state))),
            ("value"@, item.value@),
        ],
    )
}

/// The rows a review reports.
pub open spec fn rows_model(items: Seq<SelectItem>, states: Seq<ReviewState>) -> ValueModel {
    ValueModel::List(Seq::new(items.len(), |i: int| row_model(items[i], states[i])))
}

/// The object a review reports on exit: the action when there is one, the
/// exit's name and the rows.
pub open spec fn exit_model(exit: Seq<char>, action: Option<Seq<char>>, rows: ValueModel) -> ValueModel {
    ValueModel::Object(
        match action {
            Some(name) => seq![("action"@, ValueModel::Text(name))],
            None => Seq::empty(),
        } + seq![("exit"@, ValueModel::Text(exit)), ("rows"@, rows)],
    )
}

/// A list whose rows each keep a review state.
#[derive(Debug)]
pub struct ReviewList {
    id: WidgetId,
    header: Vec<Span>,
    items: Vec<SelectItem>,
    initial_states: Vec<ReviewState>,
    states: Vec<ReviewState>,
    selected: usize,
    top: usize,
    page_size: usize,
    wrap: bool,
    show_removed: bool,
    output: ReviewOutput,
    custom_actions: Vec<ReviewActionBinding>,
}

impl ReviewList {
    #[verifier::type_invariant]
    spec fn well_formed(self) -> bool {
        &&& self.page_size >= 1
        &&& self.states@.len() == self.items@.len()
        &&& self.initial_states@.len() == self.items@.len()
        &&& self.items@.len() == 0 ==> self.selected == 0
        &&& self.items@.len() > 0 ==> self.selected < self.items@.len()
    }

    pub closed spec fn identity_text(&self) -> Seq<char> {
        self.id@
    }

    pub closed spec fn choices(&self) -> Seq<SelectItem> {
        self.items@
    }

    pub closed spec fn row_states(&self) -> Seq<ReviewState> {
        self.states@
    }

    pub closed spec fn start_states(&self) -> Seq<ReviewState> {
        self.initial_states@
    }

    pub closed spec fn selection(&self) -> nat {
        self.selected as nat
    }

    pub closed spec fn window_start(&self) -> nat {
        self.top as nat
    }

    pub closed spec fn rows_per_page(&self) -> nat {
        self.page_size as nat
    }

    pub closed spec fn wraps(&self) -> bool {
        self.wrap
    }

    pub closed spec fn shows_removed(&self) -> bool {
        self.show_removed
    }

    pub closed spec fn output_policy(&self) -> ReviewOutput {
        self.output
    }

    pub closed spec fn actions(&self) -> Seq<ReviewActionBinding> {
        self.custom_actions@
    }

    pub closed spec fn header_spans(&self) -> Seq<Span> {
        self.header@
    }

    /// The rows listed now.
    pub open spec fn listed(&self) -> Seq<int> {
        listed_rows(self.start_states(), self.shows_removed())
    }

    /// Where a navigation key moves the selection among the listed rows:
    /// one row up or down, the first or last row, or a page, by the
    /// renderer's page jump `page` when it reported one; `None` moves
    /// nothing.
    pub open spec fn navigation_target(&self, key: Key, page: Option<int>) -> Option<int> {
        let listed = self.listed();
        let at = self.selection() as int;
        let delta = page_delta(listed.len() as int, self.rows_per_page() as int);
        match key {
            Key::Up => listed_move_target(listed, at, -1, self.wraps()),
            Key::Down => listed_move_target(listed, at, 1, self.wraps()),
            Key::Char(c) => if c == 'k' || c == 'K' {
                listed_move_target(listed, at, -1, self.wraps())
            } else {
                listed_move_target(listed, at, 1, self.wraps())
            },
            Key::Home => jump_target(listed, 0),
            Key::End => jump_target(
                listed,
                if self.choices().len() > 0 {
                    self.choices().len() - 1
                } else {
                    0
                },
            ),
            Key::PageUp => match page {
                Some(t) => jump_target(listed, t),
                None => listed_move_target(listed, at, -delta, self.wraps()),
            },
            Key::PageDown => match page {
                Some(t) => jump_target(listed, t),
                None => listed_move_target(listed, at, delta, self.wraps()),
            },
            _ => None,
        }
    }

    /// The rows the review reports.
    pub open spec fn reported_rows(&self) -> ValueModel {
        rows_model(self.choices(), self.row_states())
    }

    /// A review of `items`, all unconfirmed, the first selected, removed
    /// rows shown, reporting its rows on submit.
    pub fn new<T: IntoText>(id: T, items: Vec<SelectItem>) -> (review: Self)
        ensures
            review.identity_text() == id.text_chars(),
            review.choices() == items@,
            review.row_states() == Seq::new(items@.len(), |i: int| ReviewState::Unconfirmed),
            review.start_states() == review.row_states(),
            review.selection() == 0,
            review.window_start() == 0,
            review.rows_per_page() == DEFAULT_PAGE_SIZE,
            review.wraps(),
            review.shows_removed(),
            review.output_policy() == ReviewOutput::Rows,
            review.actions().len() == 0,
            review.header_spans().len() == 0,
    {
        let mut states: Vec<ReviewState> = Vec::new();
        let mut i: usize = 0;
        while i < items.len()
            invariant
                i <= items@.len(),
                states@ == Seq::new(i as nat, |k: int| ReviewState::Unconfirmed),
            decreases items@.len() - i,
        {
            states.push(ReviewState::Unconfirmed);
            assert(states@ =~= Seq::new((i + 1) as nat, |k: int| ReviewState::Unconfirmed));
            i += 1;
        }
        let initial_states = states.clone();
        assert(initial_states@ =~= states@);
        ReviewList {
            id: WidgetId::owned(id),
            header: Vec::new(),
            items,
            initial_states,
            states,
            selected: 0,
            top: 0,
            page_size: DEFAULT_PAGE_SIZE,
            wrap: true,
            show_removed: true,
            output: ReviewOutput::Rows,
            custom_actions: Vec::new(),
        }
    }

    /// Report an object naming the exit, and submit on leave too; or report
    /// the rows alone.
    pub fn with_exit_output(self, exit_output: bool) -> (review: Self)
        ensures
            review.identity_text() == self.identity_text(),
            review.wraps() == self.wraps(),
            review.header_spans() == self.header_spans(),
            review.output_policy() == if exit_output {
                ReviewOutput::Exits { leave: true }
            } else {
                ReviewOutput::Rows
            },
            review.choices() == self.choices(),
            review.row_states() == self.row_states(),
            review.actions() == self.actions(),
            review.selection() == self.selection(),
            review.start_states() == self.start_states(),
            review.shows_removed() == self.shows_removed(),
            review.rows_per_page() == self.rows_per_page(),
    {
        proof {
            use_type_invariant(&self);
        }
        let mut review = self;
        review.output = if exit_output {
            ReviewOutput::Exits { leave: true }
        } else {
            ReviewOutput::Rows
        };
        review
    }

    /// Whether leaving submits, when exits are reported.
    pub fn with_leave_output(self, leave_output: bool) -> (review: Self)
        ensures
            review.output_policy() == match self.output_policy() {
                ReviewOutput::Exits { .. } => ReviewOutput::Exits { leave: leave_output },
                ReviewOutput::Rows => ReviewOutput::Rows,
            },
            review.choices() == self.choices(),
            review.row_states() == self.row_states(),
            review.actions() == self.actions(),
    {
        proof {
            use_type_invariant(&self);
        }
        let mut review = self;
        match review.output {
            ReviewOutput::Exits { .. } => review.output = ReviewOutput::Exits { leave: leave_output },
            ReviewOutput::Rows => {},
        }
        review
    }

    /// Bind application actions; any action makes the review report exits.
    pub fn with_custom_actions(self, actions: Vec<ReviewActionBinding>) -> (review: Self)
        ensures
            review.identity_text() == self.identity_text(),
            review.wraps() == self.wraps(),
            review.header_spans() == self.header_spans(),
            review.actions() == actions@,
            actions@.len() > 0 ==> review.output_policy() == (ReviewOutput::Exits { leave: true }),
            actions@.len() == 0 ==> review.output_policy() == self.output_policy(),
            review.choices() == self.choices(),
            review.row_states() == self.row_states(),
            review.start_states() == self.start_states(),
            review.shows_removed() == self.shows_removed(),
            review.rows_per_page() == self.rows_per_page(),
    {
        proof {
            use_type_invariant(&self);
        }
        let mut review = self;
        let any = actions.len() > 0;
        review.custom_actions = actions;
        if any {
            review.output = ReviewOutput::Exits { leave: true };
        }
        review
    }

    pub fn with_wrap(self, wrap: bool) -> (review: Self)
        ensures
            review.identity_text() == self.identity_text(),
            review.rows_per_page() == self.rows_per_page(),
            review.shows_removed() == self.shows_removed(),
            review.output_policy() == self.output_policy(),
            review.actions() == self.actions(),
            review.header_spans() == self.header_spans(),
            review.start_states() == self.start_states(),
            review.wraps() == wrap,
            review.choices() == self.choices(),
            review.row_states() == self.row_states(),
            review.selection() == self.selection(),
    {
        proof {
            use_type_invariant(&self);
        }
        let mut review = self;
        review.wrap = wrap;
        review
    }

    pub fn with_header<T: IntoText>(self, header: T) -> (review: Self)
        ensures
            review.header_spans().len() == 1,
            review.header_spans()[0].text@ == header.text_chars(),
            review.header_spans()[0].role == Role::Prompt,
            review.choices() == self.choices(),
            review.row_states() == self.row_states(),
            review.selection() == self.selection(),
            review.output_policy() == self.output_policy(),
            review.actions() == self.actions(),
    {
        proof {
            use_type_invariant(&self);
        }
        let mut review = self;
        let mut spans: Vec<Span> = Vec::new();
        spans.push(Span::new(header, Role::Prompt));
        review.header = spans;
        review
    }

    pub fn set_header<T: IntoText>(&mut self, header: T)
        ensures
            final(self).identity_text() == old(self).identity_text(),
            final(self).rows_per_page() == old(self).rows_per_page(),
            final(self).wraps() == old(self).wraps(),
            final(self).shows_removed() == old(self).shows_removed(),
            final(self).output_policy() == old(self).output_policy(),
            final(self).actions() == old(self).actions(),
            final(self).start_states() == old(self).start_states(),
            final(self).header_spans().len() == 1,
            final(self).header_spans()[0].text@ == header.text_chars(),
            final(self).header_spans()[0].role == Role::Prompt,
            final(self).choices() == old(self).choices(),
            final(self).row_states() == old(self).row_states(),
            final(self).selection() == old(self).selection(),
    {
        proof {
            use_type_invariant(&*self);
        }
        let mut spans: Vec<Span> = Vec::new();
        spans.push(Span::new(header, Role::Prompt));
        self.header = spans;
    }

    pub fn with_header_spans(self, header: Vec<Span>) -> (review: Self)
        ensures
            review.header_spans() == header@,
            review.choices() == self.choices(),
            review.row_states() == self.row_states(),
            review.selection() == self.selection(),
    {
        let mut review = self;
        review.set_header_spans(header);
        review
    }

    pub fn set_header_spans(&mut self, header: Vec<Span>)
        ensures
            final(self).header_spans() == header@,
            final(self).choices() == old(self).choices(),
            final(self).row_states() == old(self).row_states(),
            final(self).selection() == old(self).selection(),
    {
        proof {
            use_type_invariant(&*self);
        }
        self.header = header;
    }

    /// The prompt is the header.
    pub fn with_prompt<T: IntoText>(self, prompt: T) -> (review: Self)
        ensures
            review.identity_text() == self.identity_text(),
            review.rows_per_page() == self.rows_per_page(),
            review.wraps() == self.wraps(),
            review.shows_removed() == self.shows_removed(),
            review.output_policy() == self.output_policy(),
            review.actions() == self.actions(),
            review.start_states() == self.start_states(),
            review.header_spans().len() == 1,
            review.header_spans()[0].text@ == prompt.text_chars(),
            review.choices() == self.choices(),
            review.row_states() == self.row_states(),
            review.selection() == self.selection(),
    {
        let mut review = self;
        review.set_header(prompt);
        review
    }

    /// The same as `with_exit_output`.
    pub fn with_action_output(self, action_output: bool) -> (review: Self)
        ensures
            review.identity_text() == self.identity_text(),
            review.wraps() == self.wraps(),
            review.header_spans() == self.header_spans(),
            review.output_policy() == if action_output {
                ReviewOutput::Exits { leave: true }
            } else {
                ReviewOutput::Rows
            },
            review.choices() == self.choices(),
            review.row_states() == self.row_states(),
            review.actions() == self.actions(),
            review.selection() == self.selection(),
            review.start_states() == self.start_states(),
            review.shows_removed() == self.shows_removed(),
            review.rows_per_page() == self.rows_per_page(),
    {
        self.with_exit_output(action_output)
    }

    /// Select row `selected`, or the last row past the end; a row that is
    /// not listed gives way to the first listed row.
    pub fn with_selected_index(self, selected: usize) -> (review: Self)
        ensures
            review.identity_text() == self.identity_text(),
            review.rows_per_page() == self.rows_per_page(),
            review.wraps() == self.wraps(),
            review.shows_removed() == self.shows_removed(),
            review.header_spans() == self.header_spans(),
            review.start_states() == self.start_states(),
            review.choices() == self.choices(),
            review.row_states() == self.row_states(),
            review.output_policy() == self.output_policy(),
            review.actions() == self.actions(),
            self.choices().len() == 0 ==> review.selection() == self.selection(),
            self.choices().len() > 0 && self.listed().contains(
                if selected < self.choices().len() { selected as int } else { self.choices().len() - 1 },
            ) ==> review.selection() == if selected < self.choices().len() {
                selected as int
            } else {
                self.choices().len() - 1
            },
    {
        proof {
            use_type_invariant(&self);
        }
        let mut review = self;
        if review.items.len() > 0 {
            review.selected = if selected < review.items.len() {
                selected
            } else {
                review.items.len() - 1
            };
            review.ensure_visible();
        }
        review
    }

    pub fn with_page_size(self, page_size: usize) -> (review: Self)
        ensures
            review.identity_text() == self.identity_text(),
            review.wraps() == self.wraps(),
            review.output_policy() == self.output_policy(),
            review.actions() == self.actions(),
            review.header_spans() == self.header_spans(),
            review.rows_per_page() == if page_size > 1 { page_size } else { 1 },
            review.choices() == self.choices(),
            review.row_states() == self.row_states(),
            review.start_states() == self.start_states(),
            review.shows_removed() == self.shows_removed(),
    {
        proof {
            use_type_invariant(&self);
        }
        let mut review = self;
        review.page_size = if page_size > 1 {
            page_size
        } else {
            1
        };
        review.ensure_visible();
        review
    }

    pub fn with_show_removed(self, show_removed: bool) -> (review: Self)
        ensures
            review.identity_text() == self.identity_text(),
            review.wraps() == self.wraps(),
            review.output_policy() == self.output_policy(),
            review.actions() == self.actions(),
            review.header_spans() == self.header_spans(),
            review.shows_removed() == show_removed,
            review.choices() == self.choices(),
            review.row_states() == self.row_states(),
            review.start_states() == self.start_states(),
            review.rows_per_page() == self.rows_per_page(),
    {
        proof {
            use_type_invariant(&self);
        }
        let mut review = self;
        review.show_removed = show_removed;
        review.ensure_visible();
        review
    }

    /// Start the rows in these states, as far as there are rows.
    pub fn with_states(self, states: Vec<ReviewState>) -> (review: Self)
        ensures
            review.row_states().len() == self.row_states().len(),
            review.start_states().len() == self.start_states().len(),
            review.identity_text() == self.identity_text(),
            review.rows_per_page() == self.rows_per_page(),
            review.wraps() == self.wraps(),
            review.shows_removed() == self.shows_removed(),
            review.output_policy() == self.output_policy(),
            review.actions() == self.actions(),
            review.header_spans() == self.header_spans(),
            review.choices() == self.choices(),
            forall|i: int| 0 <= i < self.choices().len() ==> #[trigger] review.row_states()[i] == if i < states@.len() {
                states@[i]
            } else {
                self.row_states()[i]
            },
            forall|i: int| 0 <= i < self.choices().len() ==> #[trigger] review.start_states()[i] == if i < states@.len() {
                states@[i]
            } else {
                self.start_states()[i]
            },
    {
        proof {
            use_type_invariant(&self);
        }
        let mut current = self.states;
        let mut initial = self.initial_states;
        let ghost old_current = current@;
        let ghost old_initial = initial@;
        let mut i: usize = 0;
        while i < states.len() && i < current.len()
            invariant
                current@.len() == old_current.len(),
                initial@.len() == old_initial.len(),
                old_current.len() == old_initial.len(),
                i <= states@.len(),
                forall|k: int| 0 <= k < current@.len() ==> #[trigger] current@[k] == if k < i {
                    states@[k]
                } else {
                    old_current[k]
                },
                forall|k: int| 0 <= k < initial@.len() ==> #[trigger] initial@[k] == if k < i {
                    states@[k]
                } else {
                    old_initial[k]
                },
            decreases states@.len() - i,
        {
            current.set(i, states[i]);
            initial.set(i, states[i]);
            i += 1;
        }
        let mut review = ReviewList { states: current, initial_states: initial, ..self };
        review.ensure_visible();
        review
    }

    pub fn selected_index(&self) -> (index: Option<usize>)
        ensures
            self.choices().len() == 0 ==> index is None,
            self.choices().len() > 0 ==> index == Some(self.selection() as usize),
    {
        if self.items.len() == 0 {
            None
        } else {
            Some(self.selected)
        }
    }

    pub fn state(&self, index: usize) -> (state: Option<ReviewState>)
        ensures
            index < self.row_states().len() ==> state == Some(self.row_states()[index as int]),
            index >= self.row_states().len() ==> state is None,
    {
        if index < self.states.len() {
            Some(self.states[index])
        } else {
            None
        }
    }

    pub fn show_removed(&self) -> (shown: bool)
        ensures
            shown == self.shows_removed(),
    {
        self.show_removed
    }

    /// Set the state of row `index`; a missing row or an unchanged state is
    /// ignored.
    pub fn set_state(&mut self, index: usize, state: ReviewState) -> (reaction: Reaction)
        ensures
            index < old(self).row_states().len() && old(self).row_states()[index as int] != state ==> reaction is Changed
                && final(self).row_states() == old(self).row_states().update(index as int, state),
            !(index < old(self).row_states().len() && old(self).row_states()[index as int] != state) ==> reaction is Ignored
                && final(self).row_states() == old(self).row_states(),
            final(self).choices() == old(self).choices(),
            final(self).start_states() == old(self).start_states(),
            final(self).selection() == old(self).selection(),
            final(self).window_start() == old(self).window_start(),
            final(self).shows_removed() == old(self).shows_removed(),
            final(self).output_policy() == old(self).output_policy(),
            final(self).actions() == old(self).actions(),
            final(self).identity_text() == old(self).identity_text(),
            final(self).wraps() == old(self).wraps(),
            final(self).rows_per_page() == old(self).rows_per_page(),
    {
        proof {
            use_type_invariant(&*self);
        }
        if index >= self.states.len() || self.states[index] == state {
            return Reaction::Ignored;
        }
        let mut states = self.states.clone();
        assert(states@ =~= self.states@);
        states.set(index, state);
        self.states = states;
        Reaction::Changed
    }

    /// The listed rows, in order.
    fn listed_indices(&self) -> (listed: Vec<usize>)
        ensures
            listed@.len() == self.listed().len(),
            forall|k: int| 0 <= k < listed@.len() ==> #[trigger] listed@[k] as int == self.listed()[k],
    {
        proof {
            use_type_invariant(self);
        }
        let mut listed: Vec<usize> = Vec::new();
        let mut i: usize = 0;
        while i < self.initial_states.len()
            invariant
                i <= self.initial_states@.len(),
                listed@.len() == listed_prefix(self.initial_states@, self.show_removed, i as int).len(),
                forall|k: int| 0 <= k < listed@.len() ==> #[trigger] listed@[k] as int == listed_prefix(self.initial_states@, self.show_removed, i as int)[k],
            decreases self.initial_states@.len() - i,
        {
            if self.show_removed || self.initial_states[i] != ReviewState::Denied {
                listed.push(i);
            }
            i += 1;
        }
        listed
    }

    fn visible_len_of(&self, listed: usize) -> (visible: usize)
        ensures
            visible >= 1,
            visible == (if self.rows_per_page() < listed { self.rows_per_page() as int } else if listed < 1 { 1 } else { listed as int }),
    {
        proof {
            use_type_invariant(self);
        }
        let shown = if self.page_size < listed {
            self.page_size
        } else {
            listed
        };
        if shown < 1 {
            1
        } else {
            shown
        }
    }

    /// Keep the selection on a listed row and the window around it.
    fn ensure_visible(&mut self)
        ensures
            final(self).header_spans() == old(self).header_spans(),
            final(self).choices() == old(self).choices(),
            final(self).row_states() == old(self).row_states(),
            final(self).start_states() == old(self).start_states(),
            final(self).shows_removed() == old(self).shows_removed(),
            final(self).output_policy() == old(self).output_policy(),
            final(self).actions() == old(self).actions(),
            final(self).identity_text() == old(self).identity_text(),
            final(self).wraps() == old(self).wraps(),
            final(self).rows_per_page() == old(self).rows_per_page(),
            final(self).listed().len() > 0 ==> final(self).listed().contains(final(self).selection() as int),
            old(self).listed().contains(old(self).selection() as int) ==> final(self).selection() == old(self).selection(),
            old(self).listed().len() == 0 ==> final(self).selection() == old(self).selection(),
    {
        proof {
            use_type_invariant(&*self);
        }
        if self.items.len() == 0 {
            self.top = 0;
            return;
        }
        let listed = self.listed_indices();
        if listed.len() == 0 {
            self.top = 0;
            return;
        }
        let mut position: usize = 0;
        let mut k: usize = 0;
        let mut found = false;
        while k < listed.len()
            invariant
                k <= listed@.len(),
                position < listed@.len(),
                found ==> listed@[position as int] == self.selected,
                !found ==> position == 0 && forall|j: int| 0 <= j < k ==> #[trigger] listed@[j] != self.selected,
            decreases listed@.len() - k,
        {
            if !found && listed[k] == self.selected {
                position = k;
                found = true;
            }
            k += 1;
        }
        proof {
            lemma_listed_prefix(self.initial_states@, self.show_removed, self.initial_states@.len() as int);
        }
        proof {
            if !found && self.listed().contains(self.selected as int) {
                let j = choose|j: int| 0 <= j < self.listed().len() && self.listed()[j] == self.selected as int;
                assert(listed@[j] as int == self.listed()[j]);
            }
        }
        self.selected = listed[position];
        let visible = self.visible_len_of(listed.len());
        self.top = scroll_window(position, self.top, visible, listed.len());
        assert(self.listed()[position as int] == self.selected as int);
    }

    fn move_by(&mut self, delta: isize) -> (reaction: Reaction)
        ensures
            reaction is Changed || reaction is Ignored,
            reaction is Ignored ==> final(self).selection() == old(self).selection(),
            match listed_move_target(old(self).listed(), old(self).selection() as int, delta as int, old(self).wraps()) {
                Some(t) => if t == old(self).selection() {
                    reaction is Ignored
                } else {
                    reaction is Changed && final(self).selection() == t
                },
                None => reaction is Ignored,
            },
            final(self).choices() == old(self).choices(),
            final(self).row_states() == old(self).row_states(),
            final(self).start_states() == old(self).start_states(),
            final(self).shows_removed() == old(self).shows_removed(),
            final(self).output_policy() == old(self).output_policy(),
            final(self).actions() == old(self).actions(),
            final(self).identity_text() == old(self).identity_text(),
            reaction is Changed ==> final(self).listed().contains(final(self).selection() as int),
    {
        proof {
            use_type_invariant(&*self);
            lemma_listed_prefix(self.initial_states@, self.show_removed, self.initial_states@.len() as int);
        }
        let listed = self.listed_indices();
        let mut current: usize = 0;
        let mut found = false;
        let mut k: usize = 0;
        while k < listed.len()
            invariant
                k <= listed@.len(),
                found ==> current < listed@.len() && listed@[current as int] == self.selected,
                !found ==> forall|j: int| 0 <= j < k ==> listed@[j] != self.selected,
            decreases listed@.len() - k,
        {
            if !found && listed[k] == self.selected {
                current = k;
                found = true;
            }
            k += 1;
        }
        if !found {
            proof {
                if exists|j: int| 0 <= j < self.listed().len() && self.listed()[j] == self.selected as int {
                    let j = choose|j: int| 0 <= j < self.listed().len() && self.listed()[j] == self.selected as int;
                    assert(listed@[j] as int == self.listed()[j]);
                }
            }
            return Reaction::Ignored;
        }
        proof {
            let l = self.listed();
            assert(l[current as int] == self.selected as int);
            assert(exists|j: int| 0 <= j < l.len() && l[j] == self.selected as int);
            let c = choose|j: int| 0 <= j < l.len() && l[j] == self.selected as int;
            if c < current as int {
                assert(l[c] < l[current as int]);
            } else if c > current as int {
                assert(l[current as int] < l[c]);
            }
            assert(place_of(l, self.selected as int) == Some(current as int));
        }
        let next = match move_index(current, listed.len(), delta, self.wrap) {
            Some(next) => next,
            None => return Reaction::Ignored,
        };
        let target = listed[next];
        if target == self.selected {
            return Reaction::Ignored;
        }
        proof {
            assert(self.listed()[next as int] == target as int);
        }
        self.selected = target;
        self.ensure_visible();
        Reaction::Changed
    }

    /// Select the first listed row at or after `selected`, or the last
    /// listed row.
    fn move_to(&mut self, selected: usize) -> (reaction: Reaction)
        ensures
            reaction is Changed || reaction is Ignored,
            reaction is Ignored ==> final(self).selection() == old(self).selection(),
            old(self).listed().len() == 0 ==> reaction is Ignored,
            old(self).listed().len() > 0 ==> {
                let t = first_listed_from(old(self).listed(), selected as int, 0);
                if t == old(self).selection() {
                    reaction is Ignored
                } else {
                    reaction is Changed && final(self).selection() == t
                }
            },
            final(self).choices() == old(self).choices(),
            final(self).row_states() == old(self).row_states(),
            final(self).start_states() == old(self).start_states(),
            final(self).shows_removed() == old(self).shows_removed(),
            final(self).output_policy() == old(self).output_policy(),
            final(self).actions() == old(self).actions(),
            final(self).identity_text() == old(self).identity_text(),
            reaction is Changed ==> final(self).listed().contains(final(self).selection() as int),
    {
        proof {
            use_type_invariant(&*self);
            lemma_listed_prefix(self.initial_states@, self.show_removed, self.initial_states@.len() as int);
        }
        let listed = self.listed_indices();
        if listed.len() == 0 {
            return Reaction::Ignored;
        }
        let mut target = listed[listed.len() - 1];
        let mut chosen: usize = listed.len() - 1;
        let mut k: usize = listed.len();
        while k > 0
            invariant
                k <= listed@.len(),
                listed@.len() > 0,
                chosen < listed@.len(),
                target == listed@[chosen as int],
                target as int == first_listed_from(self.listed(), selected as int, k as int),
                listed@.len() == self.listed().len(),
                forall|j: int| 0 <= j < listed@.len() ==> #[trigger] listed@[j] as int == self.listed()[j],
            decreases k,
        {
            k -= 1;
            if listed[k] >= selected {
                target = listed[k];
                chosen = k;
            }
        }
        if target == self.selected {
            return Reaction::Ignored;
        }
        proof {
            assert(self.listed()[chosen as int] == target as int);
        }
        self.selected = target;
        self.ensure_visible();
        Reaction::Changed
    }

    fn list_id(&self) -> (id: ViewId)
        ensures
            id@ == self.identity_text() + "/list"@,
    {
        let mut text = String::new();
        push_str(&mut text, self.id.as_str());
        push_str(&mut text, "/list");
        ViewId::owned(text)
    }

    /// Follow the window the renderer reported for this list.
    fn sync_presentation(&mut self, cx: &Context)
        ensures
            final(self).choices() == old(self).choices(),
            final(self).row_states() == old(self).row_states(),
            final(self).start_states() == old(self).start_states(),
            final(self).selection() == old(self).selection(),
            final(self).shows_removed() == old(self).shows_removed(),
            final(self).output_policy() == old(self).output_policy(),
            final(self).actions() == old(self).actions(),
            final(self).identity_text() == old(self).identity_text(),
            final(self).wraps() == old(self).wraps(),
            final(self).rows_per_page() == old(self).rows_per_page(),
            forall|i: int| #[trigger] first_report_at(cx.lists(), old(self).identity_text() + "/list"@, i)
                ==> final(self).window_start() == cx.lists()[i].visible.start,
            (forall|i: int| !#[trigger] first_report_at(cx.lists(), old(self).identity_text() + "/list"@, i))
                ==> final(self).window_start() == old(self).window_start(),
    {
        proof {
            use_type_invariant(&*self);
        }
        let id = self.list_id();
        match cx.list_presentation(&id) {
            Some(presentation) => {
                proof {
                    let i = choose|i: int|
                        0 <= i < cx.lists().len() && cx.lists()[i] == *presentation && #[trigger] cx.lists()[i].id@ == id@
                            && forall|j: int| 0 <= j < i ==> #[trigger] cx.lists()[j].id@ != id@;
                    assert(first_report_at(cx.lists(), id@, i));
                }
                self.top = presentation.visible.start;
            },
            None => {},
        }
    }

    /// The listed row a page key goes to, as the renderer reported it.
    fn page_target(&self, cx: &Context, down: bool) -> (target: Option<usize>)
        ensures
            forall|i: int| #[trigger] first_report_at(cx.lists(), self.identity_text() + "/list"@, i) ==> match reported_page(
                cx.lists()[i],
                down,
            ) {
                Some(p) => if p < self.listed().len() {
                    target matches Some(t) && t as int == self.listed()[p as int]
                } else {
                    target is None
                },
                None => target is None,
            },
            (forall|i: int| !#[trigger] first_report_at(cx.lists(), self.identity_text() + "/list"@, i)) ==> target is None,
    {
        let id = self.list_id();
        let found = cx.list_presentation(&id);
        proof {
            if let Some(presentation) = found {
                let i = choose|i: int|
                    0 <= i < cx.lists().len() && cx.lists()[i] == *presentation && #[trigger] cx.lists()[i].id@ == id@
                        && forall|j: int| 0 <= j < i ==> #[trigger] cx.lists()[j].id@ != id@;
                assert(first_report_at(cx.lists(), id@, i));
            }
        }
        let position = match found {
            Some(presentation) => if down {
                presentation.page_down
            } else {
                presentation.page_up
            },
            None => None,
        };
        match position {
            Some(position) => {
                let listed = self.listed_indices();
                if position < listed.len() {
                    Some(listed[position])
                } else {
                    None
                }
            },
            None => None,
        }
    }

    fn toggle_removed(&mut self) -> (reaction: Reaction)
        ensures
            reaction is Changed,
            final(self).shows_removed() == !old(self).shows_removed(),
            final(self).choices() == old(self).choices(),
            final(self).row_states() == old(self).row_states(),
            final(self).start_states() == old(self).start_states(),
            final(self).output_policy() == old(self).output_policy(),
            final(self).actions() == old(self).actions(),
            final(self).identity_text() == old(self).identity_text(),
    {
        proof {
            use_type_invariant(&*self);
        }
        self.show_removed = !self.show_removed;
        self.top = 0;
        self.ensure_visible();
        Reaction::Changed
    }

    /// The rows as the review reports them.
    pub fn output_rows(&self) -> (rows: Value)
        ensures
            rows@ == self.reported_rows(),
    {
        proof {
            use_type_invariant(self);
        }
        let mut rows: Vec<Value> = Vec::new();
        let mut i: usize = 0;
        while i < self.items.len()
            invariant
                i <= self.items@.len(),
                self.states@.len() == self.items@.len(),
                list_model(rows@) == Seq::new(i as nat, |k: int| row_model(self.items@[k], self.states@[k])),
            decreases self.items@.len() - i,
        {
            let mut fields: Vec<(String, Value)> = Vec::new();
            fields.push(("label".to_owned(), Value::String(self.items[i].label.clone())));
            fields.push(("state".to_owned(), Value::String(self.states[i].as_str().to_owned())));
            fields.push(("value".to_owned(), self.items[i].value.clone()));
            proof {
                crate::bang_core::value::lemma_fields_model_len(fields@);
                assert(fields_model(fields@) =~= seq![
                    ("label"@, ValueModel::Text(self.items@[i as int].label@)),
                    ("state"@, ValueModel::Text(state_name(self.states@[i as int]))),
                    ("value"@, self.items@[i as int].value@),
                ]);
            }
            let row = Value::Object(fields);
            assert(row@ == row_model(self.items@[i as int], self.states@[i as int]));
            let ghost before = rows@;
            let ghost row_view = row@;
            rows.push(row);
            assert(rows@.drop_last() =~= before);
            assert(list_model(rows@) == list_model(before).push(row_view));
            assert(list_model(rows@) =~= Seq::new((i + 1) as nat, |k: int| row_model(self.items@[k], self.states@[k])));
            i += 1;
        }
        Value::List(rows)
    }

    /// The exit object: the action when given, the exit's name and the rows.
    fn output_exit(&self, exit: &str, action: Option<&str>) -> (output: Value)
        ensures
            output@ == exit_model(exit@, match action {
                Some(a) => Some(a@),
                None => None,
            }, self.reported_rows()),
    {
        let mut fields: Vec<(String, Value)> = Vec::new();
        match action {
            Some(name) => fields.push(("action".to_owned(), Value::String(name.to_owned()))),
            None => {},
        }
        fields.push(("exit".to_owned(), Value::String(exit.to_owned())));
        fields.push(("rows".to_owned(), self.output_rows()));
        proof {
            crate::bang_core::value::lemma_fields_model_len(fields@);
            let expected = match action {
                Some(a) => seq![("action"@, ValueModel::Text(a@))],
                None => Seq::<(Seq<char>, ValueModel)>::empty(),
            } + seq![("exit"@, ValueModel::Text(exit@)), ("rows"@, self.reported_rows())];
            assert(fields_model(fields@) =~= expected);
        }
        Value::Object(fields)
    }

    fn submit(&self) -> (reaction: Reaction)
        ensures
            reaction matches Reaction::Submit(v) && v@ == match self.output_policy() {
                ReviewOutput::Exits { .. } => exit_model("submit"@, None, self.reported_rows()),
                ReviewOutput::Rows => self.reported_rows(),
            },
    {
        match self.output {
            ReviewOutput::Exits { .. } => Reaction::Submit(self.output_exit("submit", None)),
            ReviewOutput::Rows => Reaction::Submit(self.output_rows()),
        }
    }

    fn leave(&self) -> (reaction: Reaction)
        ensures
            self.output_policy() == (ReviewOutput::Exits { leave: true }) ==> (reaction matches Reaction::Submit(v) && v@
                == exit_model("leave"@, None, self.reported_rows())),
            self.output_policy() != (ReviewOutput::Exits { leave: true }) ==> reaction is Cancel,
    {
        if self.output == (ReviewOutput::Exits { leave: true }) {
            Reaction::Submit(self.output_exit("leave", None))
        } else {
            Reaction::Cancel
        }
    }

    /// The first action bound to `key`, ignoring ASCII case.
    fn find_action(&self, key: char) -> (found: Option<usize>)
        ensures
            found matches Some(i) ==> i < self.actions().len() && same_key_ascii(self.actions()[i as int].bound_key(), key),
            found is None ==> forall|i: int| 0 <= i < self.actions().len() ==> !same_key_ascii(#[trigger] self.actions()[i].bound_key(), key),
            found matches Some(i) ==> forall|k: int| 0 <= k < i ==> !same_key_ascii(#[trigger] self.actions()[k].bound_key(), key),
    {
        let mut i: usize = 0;
        while i < self.custom_actions.len()
            invariant
                i <= self.custom_actions@.len(),
                forall|k: int| 0 <= k < i ==> !same_key_ascii(#[trigger] self.custom_actions@[k].bound_key(), key),
            decreases self.custom_actions@.len() - i,
        {
            if eq_ignore_ascii_case(self.custom_actions[i].key, key) {
                return Some(i);
            }
            i += 1;
        }
        None
    }

    /// The help line: the review keys, the application actions when exits
    /// are reported, and what Esc does.
    fn action_help(&self) -> (help: String)
        ensures
            help@ == join_with(help_parts(self.output_policy(), self.actions()), " | "@),
    {
        let mut parts: Vec<String> = Vec::new();
        parts.push("space cycle".to_owned());
        parts.push("y confirm".to_owned());
        parts.push("x deny".to_owned());
        parts.push("u unset".to_owned());
        parts.push("r removed".to_owned());
        parts.push("enter submit".to_owned());
        let ghost base = seq!["space cycle"@, "y confirm"@, "x deny"@, "u unset"@, "r removed"@, "enter submit"@];
        assert(strings_view(parts@) =~= base);
        let ghost lines = self.actions().map_values(|a: ReviewActionBinding| seq![a.bound_key(), ' '] + a.help_text());
        match self.output {
            ReviewOutput::Exits { .. } => {
                let mut i: usize = 0;
                while i < self.custom_actions.len()
                    invariant
                        i <= self.custom_actions@.len(),
                        lines == self.actions().map_values(|a: ReviewActionBinding| seq![a.bound_key(), ' '] + a.help_text()),
                        self.actions() == self.custom_actions@,
                        strings_view(parts@) == base + lines.subrange(0, i as int),
                        base.len() == 6,
                        parts@.len() == 6 + i,
                        lines.len() == self.custom_actions@.len(),
                    decreases self.custom_actions@.len() - i,
                {
                    let line = self.custom_actions[i].help_line();
                    assert(lines[i as int] == line@);
                    let ghost before = parts@;
                    parts.push(line);
                    assert forall|k: int| 0 <= k < parts@.len() implies #[trigger] strings_view(parts@)[k] == (base
                        + lines.subrange(0, i + 1))[k] by {
                        if k < before.len() {
                            assert(parts@[k] == before[k]);
                            assert(strings_view(before)[k] == (base + lines.subrange(0, i as int))[k]);
                        }
                    }
                    assert(strings_view(parts@) =~= base + lines.subrange(0, i + 1));
                    i += 1;
                }
                assert(lines.subrange(0, lines.len() as int) =~= lines);
            },
            ReviewOutput::Rows => {
                assert(strings_view(parts@) =~= base + Seq::<Seq<char>>::empty());
            },
        }
        if self.output == (ReviewOutput::Exits { leave: true }) {
            parts.push("esc leave".to_owned());
        } else {
            parts.push("esc cancel".to_owned());
        }
        assert(strings_view(parts@) =~= help_parts(self.output_policy(), self.actions()));
        join_strings(&parts, " | ")
    }

    fn list_view(&self) -> (list: ListView)
        ensures
            list.total == self.listed().len(),
            list.requested_start == self.window_start(),
            list.max_visible == Some(self.rows_per_page() as usize),
    {
        proof {
            use_type_invariant(self);
            lemma_listed_prefix(self.initial_states@, self.show_removed, self.initial_states@.len() as int);
        }
        let listed = self.listed_indices();
        let mut rows: Vec<ListRow> = Vec::new();
        let mut selected_position: Option<usize> = None;
        let mut k: usize = 0;
        while k < listed.len()
            invariant
                k <= listed@.len(),
                forall|j: int| 0 <= j < listed@.len() ==> #[trigger] listed@[j] < self.items@.len(),
                self.states@.len() == self.items@.len(),
            decreases listed@.len() - k,
        {
            let index = listed[k];
            let state = self.states[index];
            let selected = self.items.len() > 0 && index == self.selected;
            if selected && selected_position.is_none() {
                selected_position = Some(k);
            }
            let mut row_id = String::new();
            push_str(&mut row_id, self.id.as_str());
            push_str(&mut row_id, "/row/");
            push_decimal(&mut row_id, index as u64);
            let mut spans: Vec<Span> = Vec::new();
            spans.push(Span::new(state.marker(), state.role()));
            spans.push(Span::new(self.items[index].label.clone(), if selected {
                Role::Selected
            } else {
                Role::Normal
            }));
            rows.push(ListRow { id: Some(ViewId::owned(row_id)), spans, selected, checked: None });
            k += 1;
        }
        let mut help: Vec<Span> = Vec::new();
        help.push(Span::new(self.action_help(), Role::Dim));
        ListView {
            id: Some(self.list_id()),
            header: self.header.clone(),
            rows,
            selected: selected_position,
            requested_start: self.top,
            total: listed.len(),
            max_visible: Some(self.page_size),
            help,
        }
    }
}

/// Two characters equal but for ASCII case.
pub open spec fn same_key_ascii(a: char, b: char) -> bool {
    ascii_lower(a) == ascii_lower(b)
}

fn eq_ignore_ascii_case(a: char, b: char) -> (same: bool)
    ensures
        same == same_key_ascii(a, b),
{
    to_ascii_lower(a) == to_ascii_lower(b)
}

/// What a key asks of a review, before the list intents.
pub enum ReviewIntent {
    Cycle,
    ToggleRemoved,
    Mark(ReviewState),
    Action(char),
    Submit,
    Leave,
    Navigate,
    Ignore,
}

/// The review meaning of a key: space and Tab cycle, `r` toggles removed
/// rows, `y`/`c` confirm, `x`/`n` deny, `u` unsets, other plain characters
/// are application actions when exits are reported, Enter submits, Esc
/// leaves, the movement keys navigate.
pub open spec fn review_intent(key: KeyEvent, exits: bool) -> ReviewIntent {
    let plain = key.modifiers.0 == 0;
    match key.key {
        Key::Up | Key::Down | Key::Home | Key::End | Key::PageUp | Key::PageDown => ReviewIntent::Navigate,
        Key::Tab => ReviewIntent::Cycle,
        Key::Char(c) => if plain && (c == 'k' || c == 'K' || c == 'j' || c == 'J') {
            ReviewIntent::Navigate
        } else if c == ' ' {
            ReviewIntent::Cycle
        } else if plain && (c == 'r' || c == 'R') {
            ReviewIntent::ToggleRemoved
        } else if plain && (c == 'y' || c == 'Y' || c == 'c' || c == 'C') {
            ReviewIntent::Mark(ReviewState::Confirmed)
        } else if plain && (c == 'x' || c == 'X' || c == 'n' || c == 'N') {
            ReviewIntent::Mark(ReviewState::Denied)
        } else if plain && (c == 'u' || c == 'U') {
            ReviewIntent::Mark(ReviewState::Unconfirmed)
        } else if plain && exits {
            ReviewIntent::Action(c)
        } else {
            ReviewIntent::Ignore
        },
        Key::Enter => ReviewIntent::Submit,
        Key::Esc => ReviewIntent::Leave,
        _ => ReviewIntent::Ignore,
    }
}

/// A plain character key, no modifier held.
pub open spec fn plain_char_key(c: char) -> KeyEvent {
    KeyEvent { key: Key::Char(c), modifiers: Modifiers(0) }
}

/// Moving among the listed rows: Down and `j` go to the next listed row
/// after the selection, Up and `k` to the one before it, whether the list
/// wraps or not.
pub proof fn law_review_steps_between_listed_rows(review: ReviewList, place: int)
    requires
        0 <= place < review.listed().len(),
        review.listed()[place] == review.selection(),
        review.listed().len() <= isize::MAX,
    ensures
        ({
            let listed = review.listed();
            &&& place + 1 < listed.len() ==> review.navigation_target(Key::Down, None) == Some(listed[place + 1])
                && review.navigation_target(Key::Char('j'), None) == Some(listed[place + 1])
            &&& place > 0 ==> review.navigation_target(Key::Up, None) == Some(listed[place - 1])
                && review.navigation_target(Key::Char('k'), None) == Some(listed[place - 1])
        }),
{
    let listed = review.listed();
    lemma_listed_prefix(review.start_states(), review.shows_removed(), review.start_states().len() as int);
    assert(place_of(listed, review.selection() as int) == Some(place)) by {
        let k = choose|k: int| 0 <= k < listed.len() && listed[k] == review.selection();
        if k < place {
            assert(listed[k] < listed[place]);
        }
        if k > place {
            assert(listed[place] < listed[k]);
        }
    }
    assert((place + 1) % (listed.len() as int) == place + 1 || place + 1 >= listed.len()) by (nonlinear_arith)
        requires
            0 <= place < listed.len(),
    ;
    assert((place - 1) % (listed.len() as int) == place - 1 || place == 0) by (nonlinear_arith)
        requires
            0 <= place < listed.len(),
    ;
}

/// The review keys: `y` and `c` confirm, `x` and `n` deny, `u` unsets, in
/// either case; `r` toggles the removed rows; space and Tab cycle the
/// state; Enter submits and Esc leaves, whether exits are reported or not.
pub proof fn law_review_keys(exits: bool)
    ensures
        review_intent(plain_char_key('y'), exits) == ReviewIntent::Mark(ReviewState::Confirmed),
        review_intent(plain_char_key('Y'), exits) == ReviewIntent::Mark(ReviewState::Confirmed),
        review_intent(plain_char_key('c'), exits) == ReviewIntent::Mark(ReviewState::Confirmed),
        review_intent(plain_char_key('C'), exits) == ReviewIntent::Mark(ReviewState::Confirmed),
        review_intent(plain_char_key('x'), exits) == ReviewIntent::Mark(ReviewState::Denied),
        review_intent(plain_char_key('X'), exits) == ReviewIntent::Mark(ReviewState::Denied),
        review_intent(plain_char_key('n'), exits) == ReviewIntent::Mark(ReviewState::Denied),
        review_intent(plain_char_key('N'), exits) == ReviewIntent::Mark(ReviewState::Denied),
        review_intent(plain_char_key('u'), exits) == ReviewIntent::Mark(ReviewState::Unconfirmed),
        review_intent(plain_char_key('U'), exits) == ReviewIntent::Mark(ReviewState::Unconfirmed),
        review_intent(plain_char_key('r'), exits) == ReviewIntent::ToggleRemoved,
        review_intent(plain_char_key('R'), exits) == ReviewIntent::ToggleRemoved,
        review_intent(plain_char_key(' '), exits) == ReviewIntent::Cycle,
        review_intent(KeyEvent { key: Key::Tab, modifiers: Modifiers(0) }, exits) == ReviewIntent::Cycle,
        review_intent(KeyEvent { key: Key::Enter, modifiers: Modifiers(0) }, exits) == ReviewIntent::Submit,
        review_intent(KeyEvent { key: Key::Esc, modifiers: Modifiers(0) }, exits) == ReviewIntent::Leave,
        review_intent(plain_char_key('j'), exits) == ReviewIntent::Navigate,
        review_intent(plain_char_key('k'), exits) == ReviewIntent::Navigate,
        review_intent(KeyEvent { key: Key::Up, modifiers: Modifiers(0) }, exits) == ReviewIntent::Navigate,
        review_intent(KeyEvent { key: Key::Down, modifiers: Modifiers(0) }, exits) == ReviewIntent::Navigate,
        review_intent(KeyEvent { key: Key::PageUp, modifiers: Modifiers(0) }, exits) == ReviewIntent::Navigate,
        review_intent(KeyEvent { key: Key::PageDown, modifiers: Modifiers(0) }, exits) == ReviewIntent::Navigate,
        review_intent(KeyEvent { key: Key::Home, modifiers: Modifiers(0) }, exits) == ReviewIntent::Navigate,
        review_intent(KeyEvent { key: Key::End, modifiers: Modifiers(0) }, exits) == ReviewIntent::Navigate,
        exits ==> review_intent(plain_char_key('q'), exits) == ReviewIntent::Action('q'),
        !exits ==> review_intent(plain_char_key('q'), exits) == ReviewIntent::Ignore,
{
}

impl Widget for ReviewList {
    open spec fn identity(&self) -> Seq<char> {
        self.identity_text()
    }

    open spec fn held_value(&self) -> Option<ValueModel> {
        Some(self.reported_rows())
    }

    /// The rows after the event: the selected row marked or cycled, the
    /// states kept otherwise.
    open spec fn holds_after(&self, event: Event, layout: Seq<ListPresentation>, value: Option<ValueModel>) -> bool {
        let states = match event {
            Event::Key(key) => match review_intent(key, self.output_policy() is Exits) {
                ReviewIntent::Mark(state) => if self.choices().len() > 0 {
                    self.row_states().update(self.selection() as int, state)
                } else {
                    self.row_states()
                },
                ReviewIntent::Cycle => if self.choices().len() > 0 {
                    self.row_states().update(
                        self.selection() as int,
                        match self.row_states()[self.selection() as int] {
                            ReviewState::Unconfirmed => ReviewState::Confirmed,
                            ReviewState::Confirmed => ReviewState::Denied,
                            ReviewState::Denied => ReviewState::Unconfirmed,
                        },
                    )
                } else {
                    self.row_states()
                },
                _ => self.row_states(),
            },
            _ => self.row_states(),
        };
        value == Some(rows_model(self.choices(), states))
    }

    open spec fn reacts(&self, event: Event, layout: Seq<ListPresentation>, reaction: Reaction) -> bool {
        match event {
            Event::Key(key) => match review_intent(key, self.output_policy() is Exits) {
                ReviewIntent::Submit => reaction matches Reaction::Submit(v) && v@ == match self.output_policy() {
                    ReviewOutput::Exits { .. } => exit_model("submit"@, None, self.reported_rows()),
                    ReviewOutput::Rows => self.reported_rows(),
                },
                ReviewIntent::Leave => if self.output_policy() == (ReviewOutput::Exits { leave: true }) {
                    reaction matches Reaction::Submit(v) && v@ == exit_model("leave"@, None, self.reported_rows())
                } else {
                    reaction is Cancel
                },
                ReviewIntent::Mark(state) => (reaction is Changed || reaction is Ignored) && (reaction is Changed <==> (
                self.choices().len() > 0 && self.row_states()[self.selection() as int] != state)),
                ReviewIntent::Cycle => if self.choices().len() == 0 {
                    reaction is Ignored
                } else {
                    reaction is Changed
                },
                ReviewIntent::ToggleRemoved => reaction is Changed,
                ReviewIntent::Action(c) => if exists|i: int| 0 <= i < self.actions().len() && same_key_ascii(
                    #[trigger] self.actions()[i].bound_key(),
                    c,
                ) {
                    exists|i: int| 0 <= i < self.actions().len() && same_key_ascii(
                        #[trigger] self.actions()[i].bound_key(),
                        c,
                    ) && (forall|k: int| 0 <= k < i ==> !same_key_ascii(#[trigger] self.actions()[k].bound_key(), c))
                        && (reaction matches Reaction::Submit(v) && v@ == exit_model(
                        "action"@,
                        Some(self.actions()[i].action_name()),
                        self.reported_rows(),
                    ))
                } else {
                    reaction is Ignored
                },
                ReviewIntent::Navigate => match self.navigation_target(
                    key.key,
                    reported_jump(layout, self.identity_text() + "/list"@, self.listed(), key.key == Key::PageDown),
                ) {
                    Some(t) => if t == self.selection() {
                        reaction is Ignored
                    } else {
                        reaction is Changed
                    },
                    None => reaction is Ignored,
                },
                ReviewIntent::Ignore => reaction is Ignored,
            },
            _ => reaction is Ignored,
        }
    }

    fn id(&self) -> (id: WidgetId) {
        self.id.clone()
    }

    /// Follow the renderer's window, then act as [`review_intent`] says:
    /// mark, cycle or toggle; navigate among listed rows; submit, leave or
    /// run an application action with the exit object.
    fn handle(&mut self, event: Event, cx: &mut Context) -> (reaction: Reaction)
        ensures
            ({
                let sel = old(self).selection() as int;
                forall|c: char|
                    event == Event::Key(#[trigger] plain_char_key(c)) && old(self).choices().len() > 0 ==> {
                        &&& (c == 'x' || c == 'X' || c == 'n' || c == 'N') ==> final(self).row_states()[sel]
                            == ReviewState::Denied
                        &&& (c == 'y' || c == 'Y' || c == 'c' || c == 'C') ==> final(self).row_states()[sel]
                            == ReviewState::Confirmed
                        &&& (c == 'u' || c == 'U') ==> final(self).row_states()[sel] == ReviewState::Unconfirmed
                    }
            }),
            final(self).choices() == old(self).choices(),
            final(self).start_states() == old(self).start_states(),
            final(self).output_policy() == old(self).output_policy(),
            final(self).actions() == old(self).actions(),
            match event {
                Event::Key(key) => match review_intent(key, old(self).output_policy() is Exits) {
                    ReviewIntent::Submit => reaction matches Reaction::Submit(v) && v@ == match old(self).output_policy() {
                        ReviewOutput::Exits { .. } => exit_model("submit"@, None, old(self).reported_rows()),
                        ReviewOutput::Rows => old(self).reported_rows(),
                    },
                    ReviewIntent::Leave => if old(self).output_policy() == (ReviewOutput::Exits { leave: true }) {
                        reaction matches Reaction::Submit(v) && v@ == exit_model("leave"@, None, old(self).reported_rows())
                    } else {
                        reaction is Cancel
                    },
                    ReviewIntent::Mark(state) => (old(self).choices().len() > 0 ==> final(self).row_states()
                        == old(self).row_states().update(old(self).selection() as int, state)) && (old(self).choices().len()
                        == 0 ==> final(self).row_states() == old(self).row_states()) && (reaction is Changed || reaction is Ignored)
                        && (reaction is Changed <==> (old(self).choices().len() > 0 && old(self).row_states()[old(self).selection() as int] != state)),
                    ReviewIntent::Cycle => (old(self).choices().len() == 0 ==> reaction is Ignored && final(self).row_states()
                        == old(self).row_states()) && (old(self).choices().len() > 0 ==> reaction is Changed && final(self).row_states() == old(self).row_states().update(
                        old(self).selection() as int,
                        match old(self).row_states()[old(self).selection() as int] {
                            ReviewState::Unconfirmed => ReviewState::Confirmed,
                            ReviewState::Confirmed => ReviewState::Denied,
                            ReviewState::Denied => ReviewState::Unconfirmed,
                        },
                    )),
                    ReviewIntent::ToggleRemoved => reaction is Changed && final(self).shows_removed() == !old(self).shows_removed(),
                    ReviewIntent::Action(c) => if exists|i: int| 0 <= i < old(self).actions().len() && same_key_ascii(
                        #[trigger] old(self).actions()[i].bound_key(),
                        c,
                    ) {
                        exists|i: int| 0 <= i < old(self).actions().len() && same_key_ascii(
                            #[trigger] old(self).actions()[i].bound_key(),
                            c,
                        ) && (forall|k: int| 0 <= k < i ==> !same_key_ascii(#[trigger] old(self).actions()[k].bound_key(), c))
                            && (reaction matches Reaction::Submit(v) && v@ == exit_model(
                            "action"@,
                            Some(old(self).actions()[i].action_name()),
                            old(self).reported_rows(),
                        ))
                    } else {
                        reaction is Ignored
                    },
                    ReviewIntent::Navigate => final(self).row_states() == old(self).row_states() && match old(self).navigation_target(
                        key.key,
                        reported_jump(
                            old(cx).lists(),
                            old(self).identity_text() + "/list"@,
                            old(self).listed(),
                            key.key == Key::PageDown,
                        ),
                    ) {
                        Some(t) => if t == old(self).selection() {
                            reaction is Ignored && final(self).selection() == old(self).selection()
                        } else {
                            reaction is Changed && final(self).selection() == t
                        },
                        None => reaction is Ignored && final(self).selection() == old(self).selection(),
                    },
                    ReviewIntent::Ignore => reaction is Ignored,
                },
                _ => reaction is Ignored,
            },
    {
        self.sync_presentation(cx);
        proof {
            use_type_invariant(&*self);
            assert(self.listed() == old(self).listed());
            assert(self.identity_text() == old(self).identity_text());
        }
        let key = match event {
            Event::Key(key) => key,
            _ => return Reaction::Ignored,
        };
        let plain = no_modifiers(&key);
        match key.key {
            Key::Up => self.move_by(-1),
            Key::Down => self.move_by(1),
            Key::Home => self.move_to(0),
            Key::End => {
                let last = if self.items.len() > 0 {
                    self.items.len() - 1
                } else {
                    0
                };
                self.move_to(last)
            },
            Key::PageUp => match {
                let target = self.page_target(cx, false);
                proof {
                    let id = self.identity_text() + "/list"@;
                    lemma_listed_prefix(self.start_states(), self.shows_removed(), self.start_states().len() as int);
                    if exists|i: int| first_report_at(cx.lists(), id, i) {
                        let i = choose|i: int| first_report_at(cx.lists(), id, i);
                        assert(first_report_at(cx.lists(), id, i));
                        match reported_page(cx.lists()[i], false) {
                            Some(p) => if p < self.listed().len() {
                                assert(0 <= self.listed()[p as int] < self.start_states().len());
                            },
                            None => {},
                        }
                    }
                    assert(target matches Some(t) ==> reported_jump(cx.lists(), id, self.listed(), false) == Some(t as int));
                    assert(target is None ==> reported_jump(cx.lists(), id, self.listed(), false) is None);
                }
                target
            } {
                Some(target) => self.move_to(target),
                None => {
                    let listed = self.listed_indices();
                    let visible = self.visible_len_of(listed.len());
                    let delta = visible_delta(visible);
                    self.move_by(-delta)
                },
            },
            Key::PageDown => match {
                let target = self.page_target(cx, true);
                proof {
                    let id = self.identity_text() + "/list"@;
                    lemma_listed_prefix(self.start_states(), self.shows_removed(), self.start_states().len() as int);
                    if exists|i: int| first_report_at(cx.lists(), id, i) {
                        let i = choose|i: int| first_report_at(cx.lists(), id, i);
                        assert(first_report_at(cx.lists(), id, i));
                        match reported_page(cx.lists()[i], true) {
                            Some(p) => if p < self.listed().len() {
                                assert(0 <= self.listed()[p as int] < self.start_states().len());
                            },
                            None => {},
                        }
                    }
                    assert(target matches Some(t) ==> reported_jump(cx.lists(), id, self.listed(), true) == Some(t as int));
                    assert(target is None ==> reported_jump(cx.lists(), id, self.listed(), true) is None);
                }
                target
            } {
                Some(target) => self.move_to(target),
                None => {
                    let listed = self.listed_indices();
                    let visible = self.visible_len_of(listed.len());
                    self.move_by(visible_delta(visible))
                },
            },
            Key::Tab => self.cycle_selected_state(),
            Key::Char(c) => {
                if plain && (c == 'k' || c == 'K') {
                    self.move_by(-1)
                } else if plain && (c == 'j' || c == 'J') {
                    self.move_by(1)
                } else if c == ' ' {
                    self.cycle_selected_state()
                } else if plain && (c == 'r' || c == 'R') {
                    self.toggle_removed()
                } else if plain && (c == 'y' || c == 'Y' || c == 'c' || c == 'C') {
                    self.set_selected_state(ReviewState::Confirmed)
                } else if plain && (c == 'x' || c == 'X' || c == 'n' || c == 'N') {
                    self.set_selected_state(ReviewState::Denied)
                } else if plain && (c == 'u' || c == 'U') {
                    self.set_selected_state(ReviewState::Unconfirmed)
                } else if plain && (self.output != ReviewOutput::Rows) {
                    match self.find_action(c) {
                        Some(i) => Reaction::Submit(self.output_exit("action", Some(self.custom_actions[i].name()))),
                        None => Reaction::Ignored,
                    }
                } else {
                    Reaction::Ignored
                }
            },
            Key::Enter => self.submit(),
            Key::Esc => self.leave(),
            _ => Reaction::Ignored,
        }
    }

    /// The list of the listed rows in view.
    open spec fn shows(&self, cx: ViewContext, view: View) -> bool {
        view matches View::List(list) && list.total == self.listed().len() && list.requested_start
            == self.window_start() && list.max_visible == Some(self.rows_per_page() as usize)
    }

    fn view(&self, cx: &ViewContext) -> (view: View) {
        View::List(self.list_view())
    }

    fn current_value(&self) -> (value: Option<Value>) {
        Some(self.output_rows())
    }
}

impl ReviewList {
    fn set_selected_state(&mut self, state: ReviewState) -> (reaction: Reaction)
        ensures
            old(self).choices().len() > 0 ==> final(self).row_states() == old(self).row_states().update(old(self).selection() as int, state),
            old(self).choices().len() == 0 ==> final(self).row_states() == old(self).row_states(),
            reaction is Changed || reaction is Ignored,
            reaction is Changed <==> (old(self).choices().len() > 0 && old(self).row_states()[old(self).selection() as int] != state),
            final(self).choices() == old(self).choices(),
            final(self).start_states() == old(self).start_states(),
            final(self).shows_removed() == old(self).shows_removed(),
            final(self).output_policy() == old(self).output_policy(),
            final(self).actions() == old(self).actions(),
            final(self).selection() == old(self).selection(),
    {
        proof {
            use_type_invariant(&*self);
        }
        if self.items.len() == 0 {
            return Reaction::Ignored;
        }
        let index = self.selected;
        let reaction = self.set_state(index, state);
        proof {
            if old(self).row_states()[index as int] == state {
                assert(old(self).row_states().update(index as int, state) =~= old(self).row_states());
            }
        }
        reaction
    }

    fn cycle_selected_state(&mut self) -> (reaction: Reaction)
        ensures
            reaction is Changed || reaction is Ignored,
            old(self).choices().len() == 0 ==> reaction is Ignored && final(self).row_states() == old(self).row_states(),
            old(self).choices().len() > 0 ==> reaction is Changed && final(self).row_states() == old(self).row_states().update(
                old(self).selection() as int,
                match old(self).row_states()[old(self).selection() as int] {
                    ReviewState::Unconfirmed => ReviewState::Confirmed,
                    ReviewState::Confirmed => ReviewState::Denied,
                    ReviewState::Denied => ReviewState::Unconfirmed,
                },
            ),
            final(self).selection() == old(self).selection(),
            final(self).choices() == old(self).choices(),
            final(self).start_states() == old(self).start_states(),
            final(self).shows_removed() == old(self).shows_removed(),
            final(self).output_policy() == old(self).output_policy(),
            final(self).actions() == old(self).actions(),
    {
        proof {
            use_type_invariant(&*self);
        }
        if self.items.len() == 0 {
            return Reaction::Ignored;
        }
        let index = self.selected;
        let next = self.states[index].cycle();
        self.set_state(index, next)
    }
}

} // verus!
