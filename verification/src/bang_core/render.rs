//! Renderer-neutral descriptions of what a widget shows, and their plain
//! text snapshot.

use core::ops::Range;
use vstd::prelude::*;
use vstd::view::View as _;

use crate::bang_core::ids::{CursorAnchor, ViewId};
use crate::bang_core::value::Date;
use crate::text::{
    join_strings, join_with, pad_left, push_char, push_right_aligned, push_str, strings_view,
    IntoText,
};

verus! {

/// Context supplied while a widget describes its view. Physical dimensions
/// belong to the renderer and are absent.
#[derive(Clone, Debug, Eq, PartialEq)]
#[non_exhaustive]
pub struct ViewContext {}

impl Default for ViewContext {
    fn default() -> (context: Self) {
        ViewContext {  }
    }
}

/// What a renderer reports of the rows of a list it laid out. Ranges and
/// page targets index the list's rows.
#[derive(Debug, Eq, PartialEq)]
pub struct ListPresentation {
    pub id: ViewId,
    pub visible: Range<usize>,
    pub fully_visible: Range<usize>,
    pub page_up: Option<usize>,
    pub page_down: Option<usize>,
}

impl Clone for ListPresentation {
    fn clone(&self) -> (copy: Self)
        ensures
            copy.id@ == self.id@,
            copy.visible == self.visible,
            copy.fully_visible == self.fully_visible,
            copy.page_up == self.page_up,
            copy.page_down == self.page_down,
    {
        ListPresentation {
            id: self.id.clone(),
            visible: Range { start: self.visible.start, end: self.visible.end },
            fully_visible: Range { start: self.fully_visible.start, end: self.fully_visible.end },
            page_up: self.page_up,
            page_down: self.page_down,
        }
    }
}

/// Feedback of a renderer after laying out a view.
#[derive(Clone, Debug, Eq, PartialEq)]
pub struct Presentation {
    pub lists: Vec<ListPresentation>,
}

impl Default for Presentation {
    fn default() -> (presentation: Self)
        ensures
            presentation.lists@.len() == 0,
    {
        Presentation { lists: Vec::new() }
    }
}

impl Presentation {
    /// The first list reported under `id`.
    pub fn list(&self, id: &ViewId) -> (found: Option<&ListPresentation>)
        ensures
            match found {
                Some(list) => exists|i: int|
                    0 <= i < self.lists@.len() && self.lists@[i] == *list && #[trigger] self.lists@[i].id@ == id@
                        && forall|j: int| 0 <= j < i ==> #[trigger] self.lists@[j].id@ != id@,
                None => forall|j: int| 0 <= j < self.lists@.len() ==> #[trigger] self.lists@[j].id@ != id@,
            },
    {
        let mut i: usize = 0;
        while i < self.lists.len()
            invariant
                i <= self.lists@.len(),
                forall|j: int| 0 <= j < i ==> #[trigger] self.lists@[j].id@ != id@,
            decreases self.lists@.len() - i,
        {
            if self.lists[i].id == *id {
                return Some(&self.lists[i]);
            }
            i += 1;
        }
        None
    }
}

/// A renderer-neutral description of a widget's presentation: semantic roles
/// and interaction metadata, no escape sequences or concrete styles.
#[derive(Debug)]
pub enum View {
    Empty,
    Text(Vec<Span>),
    Line(Vec<Span>),
    Stack(Vec<View>),
    List(ListView),
    TextInput(TextInputView),
    Calendar(CalendarView),
    Cursor(CursorPlacement),
}

/// A text fragment with a semantic role.
#[derive(Clone, Debug, Eq, PartialEq)]
pub struct Span {
    pub text: String,
    pub role: Role,
}

impl Span {
    pub fn new<T: IntoText>(text: T, role: Role) -> (span: Self)
        ensures
            span.text@ == text.text_chars(),
            span.role == role,
    {
        Span { text: text.into_text(), role }
    }

    pub fn normal<T: IntoText>(text: T) -> (span: Self)
        ensures
            span.text@ == text.text_chars(),
            span.role == Role::Normal,
    {
        Span::new(text, Role::Normal)
    }
}

/// Semantic intent that a renderer maps to a style of its own.
#[derive(Clone, Copy, Debug, Eq, PartialEq, Structural)]
#[non_exhaustive]
pub enum Role {
    Prompt,
    Normal,
    Dim,
    Selected,
    Match,
    Error,
    Success,
}

impl Default for Role {
    fn default() -> (role: Self)
        ensures
            role == Role::Normal,
    {
        Role::Normal
    }
}

/// The candidates of a list with its selection and paging intent.
#[derive(Clone, Debug, Eq, PartialEq)]
pub struct ListView {
    /// Identity that associates renderer feedback with this list.
    pub id: Option<ViewId>,
    pub header: Vec<Span>,
    /// Candidates before any clipping or wrapping.
    pub rows: Vec<ListRow>,
    /// Selected candidate, indexed within `rows`.
    pub selected: Option<usize>,
    /// Start asked for by the widget's scroll intent.
    pub requested_start: usize,
    /// Number of candidates this view stands for.
    pub total: usize,
    /// Cap on visible candidates, independent of the physical height.
    pub max_visible: Option<usize>,
    pub help: Vec<Span>,
}

/// One row of a [`ListView`].
#[derive(Clone, Debug, Eq, PartialEq)]
pub struct ListRow {
    pub id: Option<ViewId>,
    pub spans: Vec<Span>,
    pub selected: bool,
    pub checked: Option<bool>,
}

/// A text input with its cursor, counted in characters.
#[derive(Clone, Debug, Eq, PartialEq)]
pub struct TextInputView {
    pub id: Option<ViewId>,
    pub prompt: Vec<Span>,
    pub value: String,
    pub placeholder: Option<String>,
    pub cursor: usize,
    pub cursor_anchor: CursorAnchor,
    pub error: Option<String>,
}

/// A month of a calendar prepared by a date widget.
#[derive(Clone, Debug, Eq, PartialEq)]
pub struct CalendarView {
    pub id: Option<ViewId>,
    pub year: i32,
    pub month: u8,
    pub month_label: String,
    pub weekdays: Vec<String>,
    pub weeks: Vec<CalendarWeek>,
    pub selected: Date,
    pub help: Vec<Span>,
}

/// A displayed week of a [`CalendarView`].
#[derive(Clone, Debug, Eq, PartialEq)]
pub struct CalendarWeek {
    pub days: Vec<CalendarDay>,
}

/// A displayed day and its state.
#[derive(Clone, Debug, Eq, PartialEq)]
pub struct CalendarDay {
    pub date: Date,
    pub label: String,
    pub in_month: bool,
    pub selected: bool,
    pub today: bool,
}

/// A cursor placed relative to an anchor of the view.
#[derive(Clone, Debug, Eq, PartialEq)]
pub struct CursorPlacement {
    pub anchor: CursorAnchor,
    pub column: usize,
}

/// The texts of spans, one after the other.
pub open spec fn spans_text(spans: Seq<Span>) -> Seq<char>
    decreases spans.len(),
{
    if spans.len() == 0 {
        Seq::empty()
    } else {
        spans_text(spans.drop_last()) + spans.last().text@
    }
}

/// Spans with their roles replaced by `role_of`, their texts kept.
pub open spec fn restyled(spans: Seq<Span>, role_of: spec_fn(int) -> Role) -> Seq<Span> {
    Seq::new(spans.len(), |i: int| Span { text: spans[i].text, role: role_of(i) })
}

/// Styles never reach a snapshot: the text of spans, which is all a plain
/// snapshot shows of them, is the same whatever roles they carry.
pub proof fn law_snapshot_text_ignores_roles(spans: Seq<Span>, role_of: spec_fn(int) -> Role)
    ensures
        spans_text(restyled(spans, role_of)) == spans_text(spans),
    decreases spans.len(),
{
    if spans.len() > 0 {
        law_snapshot_text_ignores_roles(spans.drop_last(), role_of);
        assert(restyled(spans, role_of).drop_last() =~= restyled(spans.drop_last(), role_of));
    }
}

/// The line of a list row: a selection marker, a check box when the row has
/// one, and its text.
pub open spec fn row_line(row: ListRow) -> Seq<char> {
    (if row.selected {
        seq!['>']
    } else {
        seq![' ']
    }) + seq![' '] + match row.checked {
        Some(true) => seq!['[', 'x', ']', ' '],
        Some(false) => seq!['[', ' ', ']', ' '],
        None => Seq::empty(),
    } + spans_text(row.spans@)
}

/// One line for the spans, or none when there are no spans.
pub open spec fn optional_spans_line(spans: Seq<Span>) -> Seq<Seq<char>> {
    if spans.len() == 0 {
        Seq::empty()
    } else {
        seq![spans_text(spans)]
    }
}

pub open spec fn list_lines(list: ListView) -> Seq<Seq<char>> {
    optional_spans_line(list.header@) + list.rows@.map_values(|row: ListRow| row_line(row))
        + optional_spans_line(list.help@)
}

pub open spec fn text_input_lines(input: TextInputView) -> Seq<Seq<char>> {
    let shown = if input.value@.len() == 0 {
        match input.placeholder {
            Some(placeholder) => placeholder@,
            None => Seq::empty(),
        }
    } else {
        input.value@
    };
    seq![spans_text(input.prompt@) + shown] + match input.error {
        Some(error) => seq![error@],
        None => Seq::empty(),
    }
}

/// A day of a calendar: `>` when selected, else `*` when today, else a space
/// in the month and `.` outside it; then its label right-aligned in two
/// columns.
pub open spec fn day_cell(day: CalendarDay) -> Seq<char> {
    seq![
        if day.selected {
            '>'
        } else if day.today {
            '*'
        } else if day.in_month {
            ' '
        } else {
            '.'
        },
    ] + pad_left(day.label@, 2, ' ')
}

pub open spec fn week_line(week: CalendarWeek) -> Seq<char> {
    join_with(week.days@.map_values(|day: CalendarDay| day_cell(day)), seq![' '])
}

pub open spec fn calendar_lines(calendar: CalendarView) -> Seq<Seq<char>> {
    seq![calendar.month_label@, join_with(strings_view(calendar.weekdays@), seq![' '])]
        + calendar.weeks@.map_values(|week: CalendarWeek| week_line(week))
        + optional_spans_line(calendar.help@)
}

/// The lines of the plain snapshot of a view.
pub open spec fn plain_lines(view: View) -> Seq<Seq<char>>
    decreases view,
{
    match view {
        View::Empty => Seq::empty(),
        View::Cursor(_) => Seq::empty(),
        View::Text(spans) => seq![spans_text(spans@)],
        View::Line(spans) => seq![spans_text(spans@)],
        View::Stack(children) => stack_lines(children@),
        View::List(list) => list_lines(list),
        View::TextInput(input) => text_input_lines(input),
        View::Calendar(calendar) => calendar_lines(calendar),
    }
}

/// The lines of views stacked one below the other.
pub open spec fn stack_lines(children: Seq<View>) -> Seq<Seq<char>>
    decreases children,
{
    if children.len() == 0 {
        Seq::empty()
    } else {
        stack_lines(children.drop_last()) + plain_lines(children.last())
    }
}

/// The plain snapshot of a view: its lines joined by newlines.
pub open spec fn plain_snapshot_text(view: View) -> Seq<char> {
    join_with(plain_lines(view), seq!['\n'])
}

/// An unstyled, deterministic snapshot of a view. Styles, anchors and cursor
/// placement are left out.
pub fn plain_snapshot(view: &View) -> (text: String)
    ensures
        text@ == plain_snapshot_text(*view),
{
    let mut lines: Vec<String> = Vec::new();
    render_plain(view, &mut lines);
    assert(strings_view(lines@) =~= plain_lines(*view));
    proof {
        reveal_strlit("\n");
        assert("\n"@ =~= seq!['\n']);
    }
    join_strings(&lines, "\n")
}

fn render_spans(spans: &Vec<Span>) -> (text: String)
    ensures
        text@ == spans_text(spans@),
{
    let mut text = String::new();
    let mut i: usize = 0;
    while i < spans.len()
        invariant
            i <= spans.len(),
            text@ == spans_text(spans@.subrange(0, i as int)),
        decreases spans.len() - i,
    {
        push_str(&mut text, spans[i].text.as_str());
        assert(spans@.subrange(0, i + 1).drop_last() =~= spans@.subrange(0, i as int));
        i += 1;
    }
    assert(spans@.subrange(0, spans@.len() as int) =~= spans@);
    text
}

/// Add a line to the collected lines.
fn push_line(lines: &mut Vec<String>, line: String)
    ensures
        strings_view(final(lines)@) == strings_view(old(lines)@).push(line@),
{
    lines.push(line);
    assert(strings_view(final(lines)@) =~= strings_view(old(lines)@).push(line@));
}

fn render_row(row: &ListRow) -> (line: String)
    ensures
        line@ == row_line(*row),
{
    let mut line = String::new();
    if row.selected {
        push_char(&mut line, '>');
    } else {
        push_char(&mut line, ' ');
    }
    push_char(&mut line, ' ');
    match row.checked {
        Some(true) => {
            push_char(&mut line, '[');
            push_char(&mut line, 'x');
            push_char(&mut line, ']');
            push_char(&mut line, ' ');
        },
        Some(false) => {
            push_char(&mut line, '[');
            push_char(&mut line, ' ');
            push_char(&mut line, ']');
            push_char(&mut line, ' ');
        },
        None => {},
    }
    let spans = render_spans(&row.spans);
    push_str(&mut line, spans.as_str());
    assert(line@ =~= row_line(*row));
    line
}

fn render_list(list: &ListView, lines: &mut Vec<String>)
    ensures
        strings_view(final(lines)@) == strings_view(old(lines)@) + list_lines(*list),
{
    let ghost start = strings_view(lines@);
    if list.header.len() > 0 {
        push_line(lines, render_spans(&list.header));
    }
    assert(strings_view(lines@) =~= start + optional_spans_line(list.header@));
    let ghost after_header = strings_view(lines@);
    let mut i: usize = 0;
    while i < list.rows.len()
        invariant
            i <= list.rows@.len(),
            strings_view(lines@) == after_header + list.rows@.subrange(0, i as int).map_values(
                |row: ListRow| row_line(row),
            ),
        decreases list.rows@.len() - i,
    {
        let line = render_row(&list.rows[i]);
        push_line(lines, line);
        assert(list.rows@.subrange(0, i + 1).map_values(|row: ListRow| row_line(row))
            =~= list.rows@.subrange(0, i as int).map_values(|row: ListRow| row_line(row)).push(
            row_line(list.rows@[i as int]),
        ));
        i += 1;
    }
    assert(list.rows@.subrange(0, list.rows@.len() as int) =~= list.rows@);
    let ghost after_rows = strings_view(lines@);
    if list.help.len() > 0 {
        push_line(lines, render_spans(&list.help));
    }
    assert(strings_view(lines@) =~= after_rows + optional_spans_line(list.help@));
    assert(strings_view(lines@) =~= strings_view(old(lines)@) + list_lines(*list));
}

fn render_text_input(input: &TextInputView, lines: &mut Vec<String>)
    ensures
        strings_view(final(lines)@) == strings_view(old(lines)@) + text_input_lines(*input),
{
    let mut line = render_spans(&input.prompt);
    if input.value.as_str().unicode_len() == 0 {
        match &input.placeholder {
            Some(placeholder) => push_str(&mut line, placeholder.as_str()),
            None => {},
        }
    } else {
        push_str(&mut line, input.value.as_str());
    }
    let ghost first = line@;
    push_line(lines, line);
    match &input.error {
        Some(error) => push_line(lines, error.clone()),
        None => {},
    }
    assert(first =~= text_input_lines(*input)[0]);
    assert(strings_view(lines@) =~= strings_view(old(lines)@) + text_input_lines(*input));
}

fn render_day(day: &CalendarDay) -> (cell: String)
    ensures
        cell@ == day_cell(*day),
{
    let mut cell = String::new();
    let marker = if day.selected {
        '>'
    } else if day.today {
        '*'
    } else if day.in_month {
        ' '
    } else {
        '.'
    };
    push_char(&mut cell, marker);
    push_right_aligned(&mut cell, day.label.as_str(), 2);
    assert(cell@ =~= day_cell(*day));
    cell
}

fn render_week(week: &CalendarWeek) -> (line: String)
    ensures
        line@ == week_line(*week),
{
    let mut cells: Vec<String> = Vec::new();
    let mut i: usize = 0;
    while i < week.days.len()
        invariant
            i <= week.days@.len(),
            strings_view(cells@) == week.days@.subrange(0, i as int).map_values(
                |day: CalendarDay| day_cell(day),
            ),
        decreases week.days@.len() - i,
    {
        let cell = render_day(&week.days[i]);
        push_line(&mut cells, cell);
        assert(week.days@.subrange(0, i + 1).map_values(|day: CalendarDay| day_cell(day))
            =~= week.days@.subrange(0, i as int).map_values(|day: CalendarDay| day_cell(day)).push(
            day_cell(week.days@[i as int]),
        ));
        i += 1;
    }
    assert(week.days@.subrange(0, week.days@.len() as int) =~= week.days@);
    let line = join_strings(&cells, " ");
    proof {
        reveal_strlit(" ");
        assert(" "@ =~= seq![' ']);
    }
    line
}

fn render_calendar(calendar: &CalendarView, lines: &mut Vec<String>)
    ensures
        strings_view(final(lines)@) == strings_view(old(lines)@) + calendar_lines(*calendar),
{
    push_line(lines, calendar.month_label.clone());
    let weekdays = join_strings(&calendar.weekdays, " ");
    proof {
        reveal_strlit(" ");
        assert(" "@ =~= seq![' ']);
    }
    push_line(lines, weekdays);
    let ghost after_head = strings_view(lines@);
    let mut i: usize = 0;
    while i < calendar.weeks.len()
        invariant
            i <= calendar.weeks@.len(),
            strings_view(lines@) == after_head + calendar.weeks@.subrange(0, i as int).map_values(
                |week: CalendarWeek| week_line(week),
            ),
        decreases calendar.weeks@.len() - i,
    {
        let line = render_week(&calendar.weeks[i]);
        push_line(lines, line);
        assert(calendar.weeks@.subrange(0, i + 1).map_values(|week: CalendarWeek| week_line(week))
            =~= calendar.weeks@.subrange(0, i as int).map_values(
            |week: CalendarWeek| week_line(week),
        ).push(week_line(calendar.weeks@[i as int])));
        i += 1;
    }
    assert(calendar.weeks@.subrange(0, calendar.weeks@.len() as int) =~= calendar.weeks@);
    let ghost after_weeks = strings_view(lines@);
    if calendar.help.len() > 0 {
        push_line(lines, render_spans(&calendar.help));
    }
    assert(strings_view(lines@) =~= after_weeks + optional_spans_line(calendar.help@));
    assert(strings_view(lines@) =~= strings_view(old(lines)@) + calendar_lines(*calendar));
}

fn render_plain(view: &View, lines: &mut Vec<String>)
    ensures
        strings_view(final(lines)@) == strings_view(old(lines)@) + plain_lines(*view),
    decreases view,
{
    match view {
        View::Empty => {
            assert(strings_view(lines@) =~= strings_view(lines@) + plain_lines(*view));
        },
        View::Cursor(_) => {
            assert(strings_view(lines@) =~= strings_view(lines@) + plain_lines(*view));
        },
        View::Text(spans) => {
            push_line(lines, render_spans(spans));
            assert(strings_view(lines@) =~= strings_view(old(lines)@) + plain_lines(*view));
        },
        View::Line(spans) => {
            push_line(lines, render_spans(spans));
            assert(strings_view(lines@) =~= strings_view(old(lines)@) + plain_lines(*view));
        },
        View::Stack(children) => {
            let mut i: usize = 0;
            assert(stack_lines(children@.subrange(0, 0)) =~= Seq::<Seq<char>>::empty());
            while i < children.len()
                invariant
                    i <= children@.len(),
                    *view == View::Stack(*children),
                    strings_view(lines@) == strings_view(old(lines)@) + stack_lines(
                        children@.subrange(0, i as int),
                    ),
                decreases children@.len() - i,
            {
                proof {
                    vstd::std_specs::vec::axiom_vec_index_decreases(*children, i as int);
                    assert(decreases_to!(*view => view->Stack_0));
                }
                render_plain(&children[i], lines);
                assert(children@.subrange(0, i + 1).drop_last() =~= children@.subrange(0, i as int));
                i += 1;
            }
            assert(children@.subrange(0, children@.len() as int) =~= children@);
        },
        View::List(list) => render_list(list, lines),
        View::TextInput(input) => render_text_input(input, lines),
        View::Calendar(calendar) => render_calendar(calendar, lines),
    }
}


/// The texts of spans, their roles left aside.
pub open spec fn span_texts(spans: Seq<Span>) -> Seq<Seq<char>> {
    spans.map_values(|span: Span| span.text@)
}

/// Two list rows that read alike: the same marker, check box and texts,
/// whatever their ids and roles.
pub open spec fn rows_alike(a: ListRow, b: ListRow) -> bool {
    a.selected == b.selected && a.checked == b.checked && span_texts(a.spans@) == span_texts(b.spans@)
}

/// Two calendar days that read alike: the same label and marks, whatever
/// their dates.
pub open spec fn days_alike(a: CalendarDay, b: CalendarDay) -> bool {
    a.label@ == b.label@ && a.in_month == b.in_month && a.selected == b.selected && a.today == b.today
}

pub open spec fn weeks_alike(a: CalendarWeek, b: CalendarWeek) -> bool {
    a.days@.len() == b.days@.len() && forall|j: int| 0 <= j < a.days@.len() ==> days_alike(#[trigger] a.days@[j], b.days@[j])
}

/// Two views that read alike: they differ at most in roles, ids, cursor
/// anchors and positions, cursor placements, list windows, and the dates
/// behind calendar labels.
pub open spec fn shown_alike(a: View, b: View) -> bool
    decreases a,
{
    match a {
        View::Empty => b is Empty,
        View::Cursor(_) => b is Cursor,
        View::Text(x) => b matches View::Text(y) && span_texts(x@) == span_texts(y@),
        View::Line(x) => b matches View::Line(y) && span_texts(x@) == span_texts(y@),
        View::Stack(xs) => b matches View::Stack(ys) && stack_alike(xs@, ys@),
        View::List(x) => b matches View::List(y) && {
            &&& span_texts(x.header@) == span_texts(y.header@)
            &&& span_texts(x.help@) == span_texts(y.help@)
            &&& x.rows@.len() == y.rows@.len()
            &&& forall|i: int| 0 <= i < x.rows@.len() ==> rows_alike(#[trigger] x.rows@[i], y.rows@[i])
        },
        View::TextInput(x) => b matches View::TextInput(y) && {
            &&& span_texts(x.prompt@) == span_texts(y.prompt@)
            &&& x.value@ == y.value@
            &&& x.placeholder.is_some() == y.placeholder.is_some()
            &&& x.placeholder.is_some() ==> x.placeholder.unwrap()@ == y.placeholder.unwrap()@
            &&& x.error.is_some() == y.error.is_some()
            &&& x.error.is_some() ==> x.error.unwrap()@ == y.error.unwrap()@
        },
        View::Calendar(x) => b matches View::Calendar(y) && {
            &&& x.month_label@ == y.month_label@
            &&& strings_view(x.weekdays@) == strings_view(y.weekdays@)
            &&& span_texts(x.help@) == span_texts(y.help@)
            &&& x.weeks@.len() == y.weeks@.len()
            &&& forall|i: int| 0 <= i < x.weeks@.len() ==> weeks_alike(#[trigger] x.weeks@[i], y.weeks@[i])
        },
    }
}

/// Stacked views that read alike, one by one.
pub open spec fn stack_alike(xs: Seq<View>, ys: Seq<View>) -> bool
    decreases xs,
{
    if xs.len() == 0 {
        ys.len() == 0
    } else {
        ys.len() > 0 && stack_alike(xs.drop_last(), ys.drop_last()) && shown_alike(xs.last(), ys.last())
    }
}

proof fn lemma_spans_text_alike(a: Seq<Span>, b: Seq<Span>)
    requires
        span_texts(a) == span_texts(b),
    ensures
        spans_text(a) == spans_text(b),
    decreases a.len(),
{
    assert(span_texts(a).len() == a.len() && span_texts(b).len() == b.len());
    if a.len() > 0 {
        assert(span_texts(a.drop_last()) =~= span_texts(a).drop_last());
        assert(span_texts(b.drop_last()) =~= span_texts(b).drop_last());
        assert(span_texts(a)[a.len() - 1] == a.last().text@);
        assert(span_texts(b)[b.len() - 1] == b.last().text@);
        lemma_spans_text_alike(a.drop_last(), b.drop_last());
    }
}

/// A snapshot shows only text: two views that read alike, differing in
/// roles, ids, anchors, cursors, list windows or calendar dates, give the
/// same snapshot.
pub proof fn law_snapshot_shows_only_text(a: View, b: View)
    requires
        shown_alike(a, b),
    ensures
        plain_lines(a) == plain_lines(b),
        plain_snapshot_text(a) == plain_snapshot_text(b),
    decreases a,
{
    match a {
        View::Text(x) => {
            let y = b->Text_0;
            lemma_spans_text_alike(x@, y@);
            assert(plain_lines(a) == seq![spans_text(x@)]);
            assert(plain_lines(b) == seq![spans_text(y@)]);
        },
        View::Line(x) => {
            let y = b->Line_0;
            lemma_spans_text_alike(x@, y@);
        },
        View::Stack(xs) => {
            let ys = b->Stack_0;
            lemma_stack_alike(xs@, ys@);
        },
        View::List(x) => {
            let y = b->List_0;
            lemma_spans_text_alike(x.header@, y.header@);
            lemma_spans_text_alike(x.help@, y.help@);
            assert(span_texts(x.header@).len() == x.header@.len() && span_texts(y.header@).len() == y.header@.len());
            assert(span_texts(x.help@).len() == x.help@.len() && span_texts(y.help@).len() == y.help@.len());
            assert(optional_spans_line(x.header@) == optional_spans_line(y.header@));
            assert(optional_spans_line(x.help@) == optional_spans_line(y.help@));
            assert forall|i: int| 0 <= i < x.rows@.len() implies row_line(#[trigger] x.rows@[i]) == row_line(y.rows@[i]) by {
                lemma_spans_text_alike(x.rows@[i].spans@, y.rows@[i].spans@);
            }
            assert(x.rows@.map_values(|row: ListRow| row_line(row)) =~= y.rows@.map_values(|row: ListRow| row_line(row)));
        },
        View::TextInput(x) => {
            let y = b->TextInput_0;
            lemma_spans_text_alike(x.prompt@, y.prompt@);
        },
        View::Calendar(x) => {
            let y = b->Calendar_0;
            lemma_spans_text_alike(x.help@, y.help@);
            assert(span_texts(x.help@).len() == x.help@.len() && span_texts(y.help@).len() == y.help@.len());
            assert(optional_spans_line(x.help@) == optional_spans_line(y.help@));
            assert forall|i: int| 0 <= i < x.weeks@.len() implies week_line(#[trigger] x.weeks@[i]) == week_line(y.weeks@[i]) by {
                let da = x.weeks@[i].days@;
                let db = y.weeks@[i].days@;
                assert(da.map_values(|day: CalendarDay| day_cell(day)) =~= db.map_values(|day: CalendarDay| day_cell(day))) by {
                    assert forall|j: int| 0 <= j < da.len() implies day_cell(#[trigger] da[j]) == day_cell(db[j]) by {
                        assert(days_alike(da[j], db[j]));
                    }
                }
            }
            assert(x.weeks@.map_values(|week: CalendarWeek| week_line(week)) =~= y.weeks@.map_values(
                |week: CalendarWeek| week_line(week),
            ));
        },
        View::Empty => {
            assert(plain_lines(b) == Seq::<Seq<char>>::empty());
        },
        View::Cursor(_) => {
            assert(plain_lines(b) == Seq::<Seq<char>>::empty());
        },
    }
    assert(plain_lines(a) == plain_lines(b));
}

proof fn lemma_stack_alike(xs: Seq<View>, ys: Seq<View>)
    requires
        stack_alike(xs, ys),
    ensures
        stack_lines(xs) == stack_lines(ys),
    decreases xs,
{
    if xs.len() > 0 {
        lemma_stack_alike(xs.drop_last(), ys.drop_last());
        law_snapshot_shows_only_text(xs.last(), ys.last());
    }
}

/// An empty view and a cursor placement show nothing, and an empty view
/// stacked above another adds nothing to its snapshot.
pub proof fn law_empty_views_show_nothing(placement: CursorPlacement, v: View, stacked: Seq<View>)
    requires
        stacked == seq![View::Empty, v],
    ensures
        plain_snapshot_text(View::Empty) == Seq::<char>::empty(),
        plain_snapshot_text(View::Cursor(placement)) == Seq::<char>::empty(),
        stack_lines(stacked) == plain_lines(v),
{
    assert(stacked.drop_last() =~= seq![View::Empty]);
    assert(seq![View::Empty].drop_last() =~= Seq::<View>::empty());
    assert(stack_lines(Seq::<View>::empty()) == Seq::<Seq<char>>::empty());
    assert(plain_lines(View::Empty) == Seq::<Seq<char>>::empty());
    assert(seq![View::Empty].last() == View::Empty);
    assert(stack_lines(seq![View::Empty]) =~= Seq::<Seq<char>>::empty());
    assert(stack_lines(stacked) =~= Seq::<Seq<char>>::empty() + plain_lines(v));
}

} // verus!
