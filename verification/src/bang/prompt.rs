//! Prompt configurations, outcomes, and the resolution of what a widget
//! submitted into the caller's own values.

use vstd::prelude::*;
use vstd::view::View as _;

use crate::bang::error::{unexpected_message, Error, ErrorKind};
use crate::bang_core::review::{state_name, state_named, ReviewState};
use crate::bang_core::select::{SelectItem, DEFAULT_PAGE_SIZE};
use crate::bang_core::text_input::{is_control_char, is_control_code, Validate};
use crate::bang_core::value::{field_of, fields_model, lemma_fields_model_len, lemma_list_model_len, list_model, Value, ValueModel};
use crate::text::{decimal, decimal_chars, parse_natural, parse_natural_text, push_char, push_str, IntoText};

verus! {

/// A prompt that takes a configuration object of its own.
pub trait Configurable: Sized {
    type Config;

    fn with_config(self, config: Self::Config) -> Self;
}

/// The presentation shared by list prompts.
#[derive(Clone, Debug)]
pub struct ListConfig {
    pub header: Option<String>,
    pub wrap: bool,
    pub page_size: usize,
}

impl Default for ListConfig {
    fn default() -> (config: Self)
        ensures
            config.header is None,
            config.wrap,
            config.page_size == DEFAULT_PAGE_SIZE,
    {
        ListConfig { header: None, wrap: true, page_size: DEFAULT_PAGE_SIZE }
    }
}

/// The configuration of a single-choice prompt.
#[derive(Clone, Debug)]
pub struct SelectConfig {
    pub list: ListConfig,
    pub selected: Option<usize>,
}

impl Default for SelectConfig {
    fn default() -> (config: Self)
        ensures
            config.list.header is None,
            config.list.wrap,
            config.list.page_size == DEFAULT_PAGE_SIZE,
            config.selected is None,
    {
        SelectConfig { list: ListConfig::default(), selected: None }
    }
}

impl SelectConfig {
    pub fn header<T: IntoText>(self, header: T) -> (config: Self)
        ensures
            config.list.header matches Some(h) && h@ == header.text_chars(),
            config.list.wrap == self.list.wrap,
            config.list.page_size == self.list.page_size,
            config.selected == self.selected,
    {
        SelectConfig { list: ListConfig { header: Some(header.into_text()), ..self.list }, ..self }
    }

    pub fn wrap(self, wrap: bool) -> (config: Self)
        ensures
            config.list.wrap == wrap,
            config.list.page_size == self.list.page_size,
            config.selected == self.selected,
    {
        SelectConfig { list: ListConfig { wrap, ..self.list }, ..self }
    }

    pub fn page_size(self, page_size: usize) -> (config: Self)
        ensures
            config.list.page_size == page_size,
            config.list.wrap == self.list.wrap,
            config.selected == self.selected,
    {
        SelectConfig { list: ListConfig { page_size, ..self.list }, ..self }
    }

    pub fn selected(self, selected: usize) -> (config: Self)
        ensures
            config.selected == Some(selected),
            config.list.wrap == self.list.wrap,
            config.list.page_size == self.list.page_size,
    {
        SelectConfig { selected: Some(selected), ..self }
    }
}

/// The configuration of a multiple-choice prompt.
#[derive(Clone, Debug)]
pub struct MultiSelectConfig {
    pub list: ListConfig,
    pub selected: Option<usize>,
    pub checked: Vec<usize>,
}

impl Default for MultiSelectConfig {
    fn default() -> (config: Self)
        ensures
            config.list.header is None,
            config.list.wrap,
            config.list.page_size == DEFAULT_PAGE_SIZE,
            config.selected is None,
            config.checked@.len() == 0,
    {
        MultiSelectConfig { list: ListConfig::default(), selected: None, checked: Vec::new() }
    }
}

impl MultiSelectConfig {
    pub fn header<T: IntoText>(self, header: T) -> (config: Self)
        ensures
            config.list.header matches Some(h) && h@ == header.text_chars(),
            config.list.wrap == self.list.wrap,
            config.list.page_size == self.list.page_size,
            config.selected == self.selected,
            config.checked@ == self.checked@,
    {
        MultiSelectConfig { list: ListConfig { header: Some(header.into_text()), ..self.list }, ..self }
    }

    pub fn wrap(self, wrap: bool) -> (config: Self)
        ensures
            config.list.wrap == wrap,
            config.list.page_size == self.list.page_size,
            config.selected == self.selected,
            config.checked@ == self.checked@,
    {
        MultiSelectConfig { list: ListConfig { wrap, ..self.list }, ..self }
    }

    pub fn page_size(self, page_size: usize) -> (config: Self)
        ensures
            config.list.page_size == page_size,
            config.list.wrap == self.list.wrap,
            config.selected == self.selected,
            config.checked@ == self.checked@,
    {
        MultiSelectConfig { list: ListConfig { page_size, ..self.list }, ..self }
    }

    pub fn selected(self, selected: usize) -> (config: Self)
        ensures
            config.selected == Some(selected),
            config.checked@ == self.checked@,
            config.list.page_size == self.list.page_size,
    {
        MultiSelectConfig { selected: Some(selected), ..self }
    }

    /// Check one more row.
    pub fn checked(self, index: usize) -> (config: Self)
        ensures
            config.checked@ == self.checked@.push(index),
            config.selected == self.selected,
            config.list.page_size == self.list.page_size,
    {
        let mut config = self;
        config.checked.push(index);
        config
    }

    /// Check exactly these rows.
    pub fn checked_indices(self, indices: Vec<usize>) -> (config: Self)
        ensures
            config.checked@ == indices@,
            config.selected == self.selected,
            config.list.page_size == self.list.page_size,
    {
        MultiSelectConfig { checked: indices, ..self }
    }
}

/// The configuration of a search prompt.
#[derive(Clone, Debug)]
pub struct SearchConfig {
    pub list: ListConfig,
    pub prompt: Option<String>,
    pub placeholder: Option<String>,
    pub selected: Option<usize>,
}

impl Default for SearchConfig {
    fn default() -> (config: Self)
        ensures
            config.list.header is None,
            config.list.wrap,
            config.list.page_size == DEFAULT_PAGE_SIZE,
            config.prompt is None,
            config.placeholder is None,
            config.selected is None,
    {
        SearchConfig { list: ListConfig::default(), prompt: None, placeholder: None, selected: None }
    }
}

impl SearchConfig {
    pub fn header<T: IntoText>(self, header: T) -> (config: Self)
        ensures
            config.list.header matches Some(h) && h@ == header.text_chars(),
            config.list.wrap == self.list.wrap,
            config.list.page_size == self.list.page_size,
            config.selected == self.selected,
    {
        SearchConfig { list: ListConfig { header: Some(header.into_text()), ..self.list }, ..self }
    }

    pub fn wrap(self, wrap: bool) -> (config: Self)
        ensures
            config.list.wrap == wrap,
            config.list.page_size == self.list.page_size,
            config.selected == self.selected,
    {
        SearchConfig { list: ListConfig { wrap, ..self.list }, ..self }
    }

    pub fn page_size(self, page_size: usize) -> (config: Self)
        ensures
            config.list.page_size == page_size,
            config.list.wrap == self.list.wrap,
            config.selected == self.selected,
    {
        SearchConfig { list: ListConfig { page_size, ..self.list }, ..self }
    }

    pub fn prompt<T: IntoText>(self, prompt: T) -> (config: Self)
        ensures
            config.prompt matches Some(p) && p@ == prompt.text_chars(),
            config.selected == self.selected,
            config.list.page_size == self.list.page_size,
    {
        SearchConfig { prompt: Some(prompt.into_text()), ..self }
    }

    pub fn placeholder<T: IntoText>(self, placeholder: T) -> (config: Self)
        ensures
            config.placeholder matches Some(p) && p@ == placeholder.text_chars(),
            config.selected == self.selected,
            config.list.page_size == self.list.page_size,
    {
        SearchConfig { placeholder: Some(placeholder.into_text()), ..self }
    }

    pub fn selected(self, selected: usize) -> (config: Self)
        ensures
            config.selected == Some(selected),
            config.list.page_size == self.list.page_size,
    {
        SearchConfig { selected: Some(selected), ..self }
    }
}

/// The configuration of a text prompt.
pub struct TextConfig {
    pub id: Option<String>,
    pub value: Option<String>,
    pub placeholder: Option<String>,
    pub validator: Option<Box<dyn Validate>>,
}

impl Default for TextConfig {
    fn default() -> (config: Self)
        ensures
            config.id is None,
            config.value is None,
            config.placeholder is None,
            config.validator is None,
    {
        TextConfig { id: None, value: None, placeholder: None, validator: None }
    }
}

impl TextConfig {
    pub fn id<T: IntoText>(self, id: T) -> (config: Self)
        ensures
            config.id matches Some(i) && i@ == id.text_chars(),
            config.value == self.value,
            config.placeholder == self.placeholder,
    {
        TextConfig { id: Some(id.into_text()), ..self }
    }

    pub fn value<T: IntoText>(self, value: T) -> (config: Self)
        ensures
            config.value matches Some(v) && v@ == value.text_chars(),
            config.id == self.id,
            config.placeholder == self.placeholder,
    {
        TextConfig { value: Some(value.into_text()), ..self }
    }

    pub fn placeholder<T: IntoText>(self, placeholder: T) -> (config: Self)
        ensures
            config.placeholder matches Some(p) && p@ == placeholder.text_chars(),
            config.id == self.id,
            config.value == self.value,
    {
        TextConfig { placeholder: Some(placeholder.into_text()), ..self }
    }

    pub fn validator<F: Validate + 'static>(self, validator: F) -> (config: Self)
        ensures
            config.validator is Some,
            config.id == self.id,
            config.value == self.value,
            config.placeholder == self.placeholder,
    {
        TextConfig { validator: Some(Box::new(validator)), ..self }
    }
}

/// The configuration of a review prompt.
#[derive(Clone, Debug)]
pub struct ReviewConfig {
    pub list: ListConfig,
    pub selected: Option<usize>,
    pub show_removed: bool,
}

impl Default for ReviewConfig {
    fn default() -> (config: Self)
        ensures
            config.list.header is None,
            config.list.wrap,
            config.list.page_size == DEFAULT_PAGE_SIZE,
            config.selected is None,
            config.show_removed,
    {
        ReviewConfig { list: ListConfig::default(), selected: None, show_removed: true }
    }
}

impl ReviewConfig {
    pub fn header<T: IntoText>(self, header: T) -> (config: Self)
        ensures
            config.list.header matches Some(h) && h@ == header.text_chars(),
            config.list.wrap == self.list.wrap,
            config.list.page_size == self.list.page_size,
            config.selected == self.selected,
            config.show_removed == self.show_removed,
    {
        ReviewConfig { list: ListConfig { header: Some(header.into_text()), ..self.list }, ..self }
    }

    pub fn wrap(self, wrap: bool) -> (config: Self)
        ensures
            config.list.wrap == wrap,
            config.list.page_size == self.list.page_size,
            config.selected == self.selected,
            config.show_removed == self.show_removed,
    {
        ReviewConfig { list: ListConfig { wrap, ..self.list }, ..self }
    }

    pub fn page_size(self, page_size: usize) -> (config: Self)
        ensures
            config.list.page_size == page_size,
            config.list.wrap == self.list.wrap,
            config.selected == self.selected,
            config.show_removed == self.show_removed,
    {
        ReviewConfig { list: ListConfig { page_size, ..self.list }, ..self }
    }

    pub fn selected(self, selected: usize) -> (config: Self)
        ensures
            config.selected == Some(selected),
            config.show_removed == self.show_removed,
            config.list.page_size == self.list.page_size,
    {
        ReviewConfig { selected: Some(selected), ..self }
    }

    pub fn show_removed(self, show_removed: bool) -> (config: Self)
        ensures
            config.show_removed == show_removed,
            config.selected == self.selected,
            config.list.page_size == self.list.page_size,
    {
        ReviewConfig { show_removed, ..self }
    }
}

/// How an ordinary typed prompt ended.
#[derive(Clone, Debug, Eq, PartialEq)]
pub enum PromptOutcome<T> {
    /// The user submitted a value.
    Submit(T),
    /// The user left the prompt without submitting.
    Leave,
}

/// How a review ended.
#[derive(Clone, Debug, Eq, PartialEq)]
pub enum ReviewExit<A> {
    Submit,
    Leave,
    Action(A),
}

/// An item of an accepted review: its value, its state, and whether the
/// state differs from the one it started in.
#[derive(Clone, Debug, Eq, PartialEq)]
pub struct Reviewed<T> {
    value: T,
    state: ReviewState,
    changed: bool,
}

impl<T> Reviewed<T> {
    pub closed spec fn item_value(&self) -> T {
        self.value
    }

    pub closed spec fn item_state(&self) -> ReviewState {
        self.state
    }

    pub closed spec fn was_changed(&self) -> bool {
        self.changed
    }

    pub fn value(&self) -> (value: &T)
        ensures
            *value == self.item_value(),
    {
        &self.value
    }

    pub fn state(&self) -> (state: ReviewState)
        ensures
            state == self.item_state(),
    {
        self.state
    }

    pub fn changed(&self) -> (changed: bool)
        ensures
            changed == self.was_changed(),
    {
        self.changed
    }

    pub fn into_parts(self) -> (parts: (T, ReviewState, bool))
        ensures
            parts == (self.item_value(), self.item_state(), self.was_changed()),
    {
        (self.value, self.state, self.changed)
    }
}

/// The exit of a review and, unless it was left, the accepted items.
#[derive(Clone, Debug, Eq, PartialEq)]
pub struct ReviewOutcome<T, A> {
    exit: ReviewExit<A>,
    accepted_items: Option<Vec<Reviewed<T>>>,
}

impl<T, A> ReviewOutcome<T, A> {
    pub closed spec fn review_exit(&self) -> ReviewExit<A> {
        self.exit
    }

    pub closed spec fn accepted(&self) -> Option<Seq<Reviewed<T>>> {
        match self.accepted_items {
            Some(items) => Some(items@),
            None => None,
        }
    }

    pub fn exit(&self) -> (exit: &ReviewExit<A>)
        ensures
            *exit == self.review_exit(),
    {
        &self.exit
    }

    /// The accepted items; none after a leave, whose edits were discarded.
    pub fn accepted_items(&self) -> (items: Option<&[Reviewed<T>]>)
        ensures
            match self.accepted() {
                Some(all) => items matches Some(slice) && slice@ == all,
                None => items is None,
            },
    {
        match &self.accepted_items {
            Some(items) => Some(items.as_slice()),
            None => None,
        }
    }

    pub fn into_parts(self) -> (parts: (ReviewExit<A>, Option<Vec<Reviewed<T>>>))
        ensures
            parts.0 == self.review_exit(),
            match self.accepted() {
                Some(all) => parts.1 matches Some(v) && v@ == all,
                None => parts.1 is None,
            },
    {
        (self.exit, self.accepted_items)
    }
}

/// A labelled choice of a typed prompt and the caller's value for it.
pub struct Choice<T> {
    pub label: String,
    pub value: T,
}

/// A review row of a typed prompt: label, caller's value and first state.
pub struct ReviewChoice<T> {
    pub label: String,
    pub value: T,
    pub state: ReviewState,
}

/// A typed application action of a review.
pub struct ReviewPromptAction<A> {
    pub key: char,
    pub help: String,
    pub value: A,
}

/// The items a widget shows for typed choices: each label, with the
/// choice's position in decimal as its value.
pub fn choice_items<T>(choices: &Vec<Choice<T>>) -> (items: Vec<SelectItem>)
    ensures
        items@.len() == choices@.len(),
        forall|i: int| 0 <= i < choices@.len() ==> #[trigger] items@[i].label@ == choices@[i].label@
            && items@[i].value@ == ValueModel::Text(decimal_chars(i as nat)),
{
    let mut items: Vec<SelectItem> = Vec::new();
    let mut i: usize = 0;
    while i < choices.len()
        invariant
            i <= choices@.len(),
            items@.len() == i,
            forall|k: int| 0 <= k < i ==> #[trigger] items@[k].label@ == choices@[k].label@
                && items@[k].value@ == ValueModel::Text(decimal_chars(k as nat)),
        decreases choices@.len() - i,
    {
        let label = choices[i].label.clone();
        items.push(SelectItem { label, value: Value::String(decimal(i as u64)) });
        i += 1;
    }
    items
}

/// The position a submitted value names: a string of decimal digits that
/// fits `usize`.
pub open spec fn named_position(value: ValueModel) -> Option<int> {
    match value {
        ValueModel::Text(t) => parse_natural(t, usize::MAX as int),
        _ => None,
    }
}

fn position_of(value: &Value) -> (position: Option<usize>)
    ensures
        match named_position(value@) {
            Some(p) => position matches Some(q) && q as int == p,
            None => position is None,
        },
{
    match value {
        Value::String(text) => match parse_natural_text(text.as_str(), usize::MAX as u64) {
            Some(n) => Some(n as usize),
            None => None,
        },
        _ => None,
    }
}

/// A prompt's result: a submitted value resolved by `resolve`, a leave on
/// cancellation, any other error as it is.
pub fn resolve_prompt<T, F: FnOnce(Value) -> Result<T, Error>>(result: Result<Value, Error>, resolve: F) -> (outcome: Result<PromptOutcome<T>, Error>)
    requires
        forall|v: Value| resolve.requires((v,)),
    ensures
        match result {
            Ok(v) => match outcome {
                Ok(PromptOutcome::Submit(t)) => resolve.ensures((v,), Ok::<T, Error>(t)),
                Ok(PromptOutcome::Leave) => false,
                Err(e) => resolve.ensures((v,), Err::<T, Error>(e)),
            },
            Err(e) => if e.error_kind() == ErrorKind::Cancelled {
                outcome matches Ok(PromptOutcome::Leave)
            } else {
                outcome == Err::<PromptOutcome<T>, Error>(e)
            },
        },
{
    match result {
        Ok(value) => match resolve(value) {
            Ok(resolved) => Ok(PromptOutcome::Submit(resolved)),
            Err(error) => Err(error),
        },
        Err(error) => {
            if error.kind() == ErrorKind::Cancelled {
                Ok(PromptOutcome::Leave)
            } else {
                Err(error)
            }
        },
    }
}

/// The caller's value for the choice a submitted value names.
pub fn resolve_one<T>(value: &Value, choices: Vec<Choice<T>>) -> (resolved: Result<T, Error>)
    ensures
        match named_position(value@) {
            Some(p) => if p < choices@.len() {
                resolved == Ok::<T, Error>(choices@[p].value)
            } else {
                resolved matches Err(e) && e.error_kind() == ErrorKind::UnexpectedValue && e.text()
                    == unexpected_message("a known choice"@)
            },
            None => resolved matches Err(e) && e.error_kind() == ErrorKind::UnexpectedValue && e.text()
                == unexpected_message("a choice"@),
        },
{
    let index = match position_of(value) {
        Some(index) => index,
        None => return Err(Error::unexpected("a choice")),
    };
    assert(named_position(value@) == Some(index as int));
    if index >= choices.len() {
        return Err(Error::unexpected("a known choice"));
    }
    let mut choices = choices;
    let chosen = choices.remove(index);
    Ok(chosen.value)
}

/// Whether the submitted items name distinct known positions.
pub open spec fn all_known(items: Seq<ValueModel>, len: int) -> bool {
    forall|i: int| 0 <= i < items.len() ==> (#[trigger] named_position(items[i]) matches Some(p) && p < len)
}

pub open spec fn all_distinct(items: Seq<ValueModel>) -> bool {
    forall|i: int, j: int| 0 <= i < j < items.len() ==> #[trigger] named_position(items[i]) != #[trigger] named_position(items[j])
}

/// Whether a position is named by one of the first `n` items.
pub open spec fn position_named(items: Seq<ValueModel>, n: int, position: int) -> bool {
    exists|i: int| 0 <= i < n && #[trigger] named_position(items[i]) == Some(position)
}

/// The values of the first `n` choices that the items name, in the order
/// of the choices.
pub open spec fn picked_values<T>(choices: Seq<Choice<T>>, items: Seq<ValueModel>, n: int) -> Seq<T>
    decreases n,
{
    if n <= 0 {
        Seq::empty()
    } else if position_named(items, items.len() as int, n - 1) {
        picked_values(choices, items, n - 1).push(choices[n - 1].value)
    } else {
        picked_values(choices, items, n - 1)
    }
}

/// The caller's values for the choices a submitted list names, in the order
/// of the choices: every item must name a known choice, and no choice twice.
pub fn resolve_many<T>(value: Value, choices: Vec<Choice<T>>) -> (resolved: Result<Vec<T>, Error>)
    ensures
        match value@ {
            ValueModel::List(items) => if !all_known(items, choices@.len() as int) {
                resolved matches Err(e) && e.error_kind() == ErrorKind::UnexpectedValue && e.text()
                    == unexpected_message("known choices"@)
            } else if !all_distinct(items) {
                resolved matches Err(e) && e.error_kind() == ErrorKind::UnexpectedValue && e.text()
                    == unexpected_message("distinct choices"@)
            } else {
                resolved matches Ok(values) && values@ == picked_values(choices@, items, choices@.len() as int)
            },
            _ => resolved matches Err(e) && e.error_kind() == ErrorKind::UnexpectedValue && e.text()
                == unexpected_message("choices"@),
        },
{
    let items = match &value {
        Value::List(items) => items,
        _ => return Err(Error::unexpected("choices")),
    };
    proof {
        lemma_list_model_len(items@);
    }
    let ghost model = list_model(items@);
    let n = choices.len();
    let mut positions: Vec<usize> = Vec::new();
    let mut i: usize = 0;
    while i < items.len()
        invariant
            i <= items@.len(),
            value@ == ValueModel::List(model),
            model == list_model(items@),
            model.len() == items@.len(),
            forall|j: int| 0 <= j < items@.len() ==> #[trigger] model[j] == items@[j]@,
            positions@.len() == i,
            n == choices@.len(),
            forall|j: int| 0 <= j < i ==> named_position(#[trigger] model[j]) == Some(positions@[j] as int) && positions@[j] < n,
        decreases items@.len() - i,
    {
        match position_of(&items[i]) {
            Some(p) => {
                if p >= n {
                    assert(!all_known(model, n as int)) by {
                        assert(named_position(model[i as int]) == Some(p as int));
                    }
                    return Err(Error::unexpected("known choices"));
                }
                positions.push(p);
            },
            None => {
                assert(!all_known(model, n as int)) by {
                    assert(named_position(model[i as int]) is None);
                }
                return Err(Error::unexpected("known choices"));
            },
        }
        i += 1;
    }
    assert(all_known(model, n as int));
    let mut marks: Vec<bool> = Vec::new();
    let mut k: usize = 0;
    while k < n
        invariant
            k <= n,
            marks@ == Seq::new(k as nat, |j: int| false),
        decreases n - k,
    {
        marks.push(false);
        assert(marks@ =~= Seq::new((k + 1) as nat, |j: int| false));
        k += 1;
    }
    let mut i: usize = 0;
    while i < positions.len()
        invariant
            i <= positions@.len(),
            positions@.len() == model.len(),
            marks@.len() == n,
            n == choices@.len(),
            value@ == ValueModel::List(model),
            forall|j: int| 0 <= j < model.len() ==> named_position(#[trigger] model[j]) == Some(positions@[j] as int) && positions@[j] < n,
            forall|p: int| 0 <= p < n ==> #[trigger] marks@[p] == position_named(model, i as int, p),
            forall|a: int, b: int| 0 <= a < b < i ==> #[trigger] named_position(model[a]) != #[trigger] named_position(model[b]),
        decreases positions@.len() - i,
    {
        let p = positions[i];
        if marks[p] {
            assert(!all_distinct(model)) by {
                let a = choose|a: int| 0 <= a < i && #[trigger] named_position(model[a]) == Some(p as int);
                assert(named_position(model[a]) == named_position(model[i as int]));
            }
            return Err(Error::unexpected("distinct choices"));
        }
        marks.set(p, true);
        proof {
            assert forall|q: int| 0 <= q < n implies #[trigger] marks@[q] == position_named(model, i + 1, q) by {
                if q == p {
                    assert(named_position(model[i as int]) == Some(q));
                } else {
                    if position_named(model, i + 1, q) {
                        let a = choose|a: int| 0 <= a < i + 1 && #[trigger] named_position(model[a]) == Some(q);
                        assert(a != i);
                    }
                }
            }
        }
        i += 1;
    }
    assert(all_distinct(model));
    let mut rest = choices;
    let ghost all = rest@;
    let mut reversed: Vec<T> = Vec::new();
    while rest.len() > 0
        invariant
            rest@ == all.subrange(0, rest@.len() as int),
            rest@.len() <= all.len(),
            marks@.len() == n,
            all.len() == n,
            forall|p: int| 0 <= p < n ==> #[trigger] marks@[p] == position_named(model, model.len() as int, p),
            picked_values(all, model, n as int) == picked_values(all, model, rest@.len() as int) + reversed@.reverse(),
        decreases rest@.len(),
    {
        let ghost before = rest@.len();
        let last = rest.pop();
        match last {
            Some(choice) => {
                let at = rest.len();
                if marks[at] {
                    let ghost old_reversed = reversed@;
                    reversed.push(choice.value);
                    assert(reversed@.reverse() =~= seq![all[at as int].value] + old_reversed.reverse());
                } else {
                }
            },
            None => {},
        }
    }
    let mut values: Vec<T> = Vec::new();
    let ghost picked = reversed@.reverse();
    while reversed.len() > 0
        invariant
            values@ + reversed@.reverse() == picked,
        decreases reversed@.len(),
    {
        let ghost before = reversed@;
        let next = reversed.pop();
        match next {
            Some(v) => {
                values.push(v);
                assert(values@ + reversed@.reverse() =~= picked) by {
                    assert(before.reverse() =~= seq![v] + reversed@.reverse());
                }
            },
            None => {},
        }
    }
    assert(values@ =~= picked);
    Ok(values)
}

/// An ASCII capital made small.
pub open spec fn ascii_lower(c: char) -> char {
    if 'A' <= c <= 'Z' {
        ((c as u32) + 32) as char
    } else {
        c
    }
}

fn to_ascii_lower(c: char) -> (lower: char)
    ensures
        lower == ascii_lower(c),
{
    if 'A' <= c && c <= 'Z' {
        ((c as u8) + 32) as char
    } else {
        c
    }
}

/// A key the review keeps for itself: a control character, or one of
/// `jkrycxnu` and space.
pub open spec fn reserved_review_key(c: char) -> bool {
    is_control_code(c) || c == 'j' || c == 'k' || c == 'r' || c == 'y' || c == 'c' || c == 'x' || c == 'n'
        || c == 'u' || c == ' '
}

/// The configuration error of the first `n` action keys, if any: a reserved
/// key or a key bound twice, ignoring ASCII case.
pub open spec fn action_keys_problem(keys: Seq<char>, n: int) -> Option<Seq<char>>
    decreases n,
{
    if n <= 0 {
        None
    } else {
        match action_keys_problem(keys, n - 1) {
            Some(message) => Some(message),
            None => {
                let key = ascii_lower(keys[n - 1]);
                if reserved_review_key(key) {
                    Some("review action key '"@ + seq![key] + "' is reserved"@)
                } else if exists|j: int| 0 <= j < n - 1 && #[trigger] ascii_lower(keys[j]) == key {
                    Some("duplicate review action key '"@ + seq![key] + "'"@)
                } else {
                    None
                }
            },
        }
    }
}

/// The keys of review actions.
pub open spec fn action_keys<A>(actions: Seq<ReviewPromptAction<A>>) -> Seq<char> {
    actions.map_values(|a: ReviewPromptAction<A>| a.key)
}

/// A found problem stays the problem of every longer run of keys.
pub proof fn lemma_problem_stays(keys: Seq<char>, m: int, n: int)
    requires
        m <= n,
        action_keys_problem(keys, m) is Some,
    ensures
        action_keys_problem(keys, n) == action_keys_problem(keys, m),
    decreases n - m,
{
    if m < n {
        lemma_problem_stays(keys, m, n - 1);
    }
}

/// Refuse review actions on reserved keys and keys bound twice.
pub fn validate_review_actions<A>(actions: &Vec<ReviewPromptAction<A>>) -> (checked: Result<(), Error>)
    ensures
        match action_keys_problem(action_keys(actions@), actions@.len() as int) {
            Some(message) => checked matches Err(e) && e.error_kind() == ErrorKind::InvalidConfiguration
                && e.text() == message,
            None => checked is Ok,
        },
{
    let ghost keys = action_keys(actions@);
    let mut seen: Vec<char> = Vec::new();
    let mut i: usize = 0;
    while i < actions.len()
        invariant
            i <= actions@.len(),
            keys == action_keys(actions@),
            keys.len() == actions@.len(),
            action_keys_problem(keys, i as int) is None,
            seen@.len() == i,
            forall|j: int| 0 <= j < i ==> #[trigger] seen@[j] == ascii_lower(keys[j]),
        decreases actions@.len() - i,
    {
        let key = to_ascii_lower(actions[i].key);
        assert(keys[i as int] == actions@[i as int].key);
        if is_control_char(key) || key == 'j' || key == 'k' || key == 'r' || key == 'y' || key == 'c' || key == 'x'
            || key == 'n' || key == 'u' || key == ' ' {
            let mut message = "review action key '".to_owned();
            push_char(&mut message, key);
            push_str(&mut message, "' is reserved");
            assert(message@ =~= "review action key '"@ + seq![key] + "' is reserved"@);
            proof {
                lemma_problem_stays(keys, i + 1, actions@.len() as int);
            }
            return Err(Error::invalid_configuration(message));
        }
        let mut j: usize = 0;
        while j < seen.len()
            invariant
                j <= seen@.len(),
                seen@.len() == i,
                i < keys.len(),
                keys == action_keys(actions@),
                keys.len() == actions@.len(),
                action_keys_problem(keys, i as int) is None,
                key == ascii_lower(keys[i as int]),
                !reserved_review_key(key),
                forall|m: int| 0 <= m < i ==> #[trigger] seen@[m] == ascii_lower(keys[m]),
                forall|m: int| 0 <= m < j ==> seen@[m] != key,
            decreases seen@.len() - j,
        {
            if seen[j] == key {
                let mut message = "duplicate review action key '".to_owned();
                push_char(&mut message, key);
                push_str(&mut message, "'");
                assert(message@ =~= "duplicate review action key '"@ + seq![key] + "'"@);
                assert(ascii_lower(keys[j as int]) == key);
                proof {
                    assert(exists|m: int| 0 <= m < i && #[trigger] ascii_lower(keys[m]) == key);
                    assert(action_keys_problem(keys, i + 1) == Some(message@));
                    lemma_problem_stays(keys, i + 1, actions@.len() as int);
                }
                return Err(Error::invalid_configuration(message));
            }
            j += 1;
        }
        seen.push(key);
        proof {
            assert(!(exists|m: int| 0 <= m < i && #[trigger] ascii_lower(keys[m]) == key)) by {
                assert forall|m: int| 0 <= m < i implies #[trigger] ascii_lower(keys[m]) != key by {
                    assert(seen@[m] == ascii_lower(keys[m]));
                }
            }
        }
        i += 1;
    }
    Ok(())
}

/// The text of a named field of an object model, if it holds a string.
pub open spec fn text_field(fields: Seq<(Seq<char>, ValueModel)>, name: Seq<char>) -> Option<Seq<char>> {
    match field_of(fields, name) {
        Some(ValueModel::Text(t)) => Some(t),
        _ => None,
    }
}

/// What one reported row says: the choice it names and its state, or what
/// was expected instead.
pub open spec fn row_reading(row: ValueModel) -> Result<(int, ReviewState), Seq<char>> {
    match row {
        ValueModel::Object(fields) => match field_of(fields, "value"@) {
            Some(v) => match named_position(v) {
                Some(index) => match text_field(fields, "state"@) {
                    Some(name) => match state_named(name) {
                        Some(state) => Ok((index, state)),
                        None => Err("a known review state"@),
                    },
                    None => Err("a review state"@),
                },
                None => Err("a known review item"@),
            },
            None => Err("a known review item"@),
        },
        _ => Err("a review row"@),
    }
}

/// The readings of the first `n` rows, each naming a distinct choice below
/// `len`, or what was expected at the first row that does not.
pub open spec fn rows_reading(rows: Seq<ValueModel>, len: int, n: int) -> Result<Seq<(int, ReviewState)>, Seq<char>>
    decreases n,
{
    if n <= 0 {
        Ok(Seq::empty())
    } else {
        match rows_reading(rows, len, n - 1) {
            Err(e) => Err(e),
            Ok(read) => match row_reading(rows[n - 1]) {
                Err(e) => Err(e),
                Ok(pair) => if pair.0 < len && !(exists|j: int| 0 <= j < read.len() && #[trigger] read[j].0 == pair.0) {
                    Ok(read.push(pair))
                } else {
                    Err("distinct known review items"@)
                },
            },
        }
    }
}

/// What the exit of a review outcome says: leave, submit, or the action at a
/// position; or what was expected instead.
pub enum ExitReading {
    Leave,
    Submit,
    Action(int),
}

pub open spec fn exit_reading(fields: Seq<(Seq<char>, ValueModel)>, actions: int) -> Result<ExitReading, Seq<char>> {
    match text_field(fields, "exit"@) {
        None => Err("a review exit"@),
        Some(exit) => if exit == "leave"@ {
            Ok(ExitReading::Leave)
        } else if exit == "submit"@ {
            Ok(ExitReading::Submit)
        } else if exit == "action"@ {
            match field_of(fields, "action"@) {
                Some(a) => match named_position(a) {
                    Some(index) => if index < actions {
                        Ok(ExitReading::Action(index))
                    } else {
                        Err("a known review action"@)
                    },
                    None => Err("a review action"@),
                },
                None => Err("a review action"@),
            }
        } else {
            Err("a known review exit"@)
        },
    }
}

/// What was expected, if anything, for the rows of an outcome object.
pub open spec fn rows_problem(fields: Seq<(Seq<char>, ValueModel)>, len: int) -> Option<Seq<char>> {
    match field_of(fields, "rows"@) {
        Some(ValueModel::List(rows)) => if rows.len() != len {
            Some("all review rows"@)
        } else {
            match rows_reading(rows, len, rows.len() as int) {
                Ok(_) => None,
                Err(e) => Some(e),
            }
        },
        _ => Some("review rows"@),
    }
}

/// What was expected, if anything, of a submitted review outcome.
pub open spec fn review_problem(value: ValueModel, choices: int, actions: int) -> Option<Seq<char>> {
    match value {
        ValueModel::Object(fields) => match exit_reading(fields, actions) {
            Err(e) => Some(e),
            Ok(ExitReading::Leave) => None,
            Ok(_) => rows_problem(fields, choices),
        },
        _ => Some("a review outcome"@),
    }
}

fn text_of_field<'a>(fields: &'a Vec<(String, Value)>, name: &str) -> (text: Option<&'a String>)
    ensures
        match text_field(fields_model(fields@), name@) {
            Some(t) => text matches Some(s) && s@ == t,
            None => text is None,
        },
{
    let key = name.to_owned();
    proof {
        lemma_fields_model_len(fields@);
    }
    let mut i: usize = 0;
    assert(fields_model(fields@).subrange(0, fields@.len() as int) =~= fields_model(fields@));
    while i < fields.len()
        invariant
            i <= fields@.len(),
            key@ == name@,
            fields_model(fields@).len() == fields@.len(),
            forall|k: int| 0 <= k < fields@.len() ==> #[trigger] fields_model(fields@)[k] == (fields@[k].0@, fields@[k].1@),
            field_of(fields_model(fields@), name@) == field_of(fields_model(fields@).subrange(i as int, fields@.len() as int), name@),
        decreases fields@.len() - i,
    {
        let ghost rest = fields_model(fields@).subrange(i as int, fields@.len() as int);
        assert(rest.drop_first() =~= fields_model(fields@).subrange(i + 1, fields@.len() as int));
        if fields[i].0 == key {
            return match &fields[i].1 {
                Value::String(s) => Some(s),
                _ => None,
            };
        }
        i += 1;
    }
    None
}

fn value_of_field<'a>(fields: &'a Vec<(String, Value)>, name: &str) -> (found: Option<&'a Value>)
    ensures
        match field_of(fields_model(fields@), name@) {
            Some(v) => found matches Some(f) && f@ == v,
            None => found is None,
        },
{
    let key = name.to_owned();
    proof {
        lemma_fields_model_len(fields@);
    }
    let mut i: usize = 0;
    assert(fields_model(fields@).subrange(0, fields@.len() as int) =~= fields_model(fields@));
    while i < fields.len()
        invariant
            i <= fields@.len(),
            key@ == name@,
            fields_model(fields@).len() == fields@.len(),
            forall|k: int| 0 <= k < fields@.len() ==> #[trigger] fields_model(fields@)[k] == (fields@[k].0@, fields@[k].1@),
            field_of(fields_model(fields@), name@) == field_of(fields_model(fields@).subrange(i as int, fields@.len() as int), name@),
        decreases fields@.len() - i,
    {
        let ghost rest = fields_model(fields@).subrange(i as int, fields@.len() as int);
        assert(rest.drop_first() =~= fields_model(fields@).subrange(i + 1, fields@.len() as int));
        if fields[i].0 == key {
            return Some(&fields[i].1);
        }
        i += 1;
    }
    None
}

/// Read the rows of an outcome: the choice each names and its state.
fn read_rows(rows: &Vec<Value>, len: usize) -> (read: Result<Vec<(usize, ReviewState)>, Error>)
    ensures
        match rows_reading(list_model(rows@), len as int, rows@.len() as int) {
            Ok(pairs) => read matches Ok(v) && v@.len() == pairs.len() && forall|k: int| 0 <= k < pairs.len() ==> (#[trigger] v@[k]).0 as int == pairs[k].0 && v@[k].1 == pairs[k].1,
            Err(expected) => read matches Err(e) && e.error_kind() == ErrorKind::UnexpectedValue && e.text() == unexpected_message(expected),
        },
{
    proof {
        lemma_list_model_len(rows@);
    }
    let ghost model = list_model(rows@);
    let mut read: Vec<(usize, ReviewState)> = Vec::new();
    let mut taken: Vec<bool> = Vec::new();
    let mut k: usize = 0;
    while k < len
        invariant
            k <= len,
            taken@ == Seq::new(k as nat, |j: int| false),
        decreases len - k,
    {
        taken.push(false);
        assert(taken@ =~= Seq::new((k + 1) as nat, |j: int| false));
        k += 1;
    }
    let mut i: usize = 0;
    while i < rows.len()
        invariant
            i <= rows@.len(),
            model == list_model(rows@),
            model.len() == rows@.len(),
            forall|j: int| 0 <= j < rows@.len() ==> #[trigger] model[j] == rows@[j]@,
            taken@.len() == len,
            rows_reading(model, len as int, i as int) matches Ok(pairs) && read@.len() == pairs.len()
                && (forall|k: int| 0 <= k < pairs.len() ==> (#[trigger] read@[k]).0 as int == pairs[k].0 && read@[k].1 == pairs[k].1)
                && (forall|p: int| 0 <= p < len ==> #[trigger] taken@[p] == exists|j: int| 0 <= j < pairs.len() && #[trigger] pairs[j].0 == p),
        decreases rows@.len() - i,
    {
        let ghost pairs = rows_reading(model, len as int, i as int)->Ok_0;
        let fields = match &rows[i] {
            Value::Object(fields) => fields,
            _ => {
                proof {
                    lemma_reading_error_stays(model, len as int, i + 1, rows@.len() as int);
                }
                return Err(Error::unexpected("a review row"));
            },
        };
        assert(model[i as int] == ValueModel::Object(fields_model(fields@)));
        let index = match value_of_field(fields, "value") {
            Some(v) => match position_of(v) {
                Some(index) => index,
                None => {
                    proof {
                        lemma_reading_error_stays(model, len as int, i + 1, rows@.len() as int);
                    }
                    return Err(Error::unexpected("a known review item"));
                },
            },
            None => {
                proof {
                    lemma_reading_error_stays(model, len as int, i + 1, rows@.len() as int);
                }
                return Err(Error::unexpected("a known review item"));
            },
        };
        let state = match text_of_field(fields, "state") {
            Some(name) => match ReviewState::from_name(name.as_str()) {
                Ok(state) => state,
                Err(_) => {
                    proof {
                        lemma_reading_error_stays(model, len as int, i + 1, rows@.len() as int);
                    }
                    return Err(Error::unexpected("a known review state"));
                },
            },
            None => {
                proof {
                    lemma_reading_error_stays(model, len as int, i + 1, rows@.len() as int);
                }
                return Err(Error::unexpected("a review state"));
            },
        };
        if index >= len || taken[index] {
            proof {
                if (index as int) < len {
                    let j = choose|j: int| 0 <= j < pairs.len() && #[trigger] pairs[j].0 == index as int;
                    assert(exists|j: int| 0 <= j < pairs.len() && #[trigger] pairs[j].0 == index as int);
                }
                lemma_reading_error_stays(model, len as int, i + 1, rows@.len() as int);
            }
            return Err(Error::unexpected("distinct known review items"));
        }
        proof {
            assert(!(exists|j: int| 0 <= j < pairs.len() && #[trigger] pairs[j].0 == index as int));
        }
        let ghost old_taken = taken@;
        taken.set(index, true);
        read.push((index, state));
        proof {
            let next = pairs.push((index as int, state));
            assert(rows_reading(model, len as int, i + 1) == Ok::<Seq<(int, ReviewState)>, Seq<char>>(next));
            assert forall|p: int| 0 <= p < len implies #[trigger] taken@[p] == exists|j: int| 0 <= j < next.len() && #[trigger] next[j].0 == p by {
                if p == index as int {
                    assert(next[pairs.len() as int].0 == p);
                } else {
                    assert(taken@[p] == old_taken[p]);
                    if exists|j: int| 0 <= j < next.len() && #[trigger] next[j].0 == p {
                        let j = choose|j: int| 0 <= j < next.len() && #[trigger] next[j].0 == p;
                        assert(j < pairs.len());
                        assert(pairs[j].0 == p);
                    }
                    if exists|j: int| 0 <= j < pairs.len() && #[trigger] pairs[j].0 == p {
                        let j = choose|j: int| 0 <= j < pairs.len() && #[trigger] pairs[j].0 == p;
                        assert(next[j].0 == p);
                    }
                }
            }
        }
        i += 1;
    }
    Ok(read)
}

/// An error at a row stays the error of every longer run of rows.
pub proof fn lemma_reading_error_stays(rows: Seq<ValueModel>, len: int, m: int, n: int)
    requires
        m <= n,
        rows_reading(rows, len, m) is Err,
    ensures
        rows_reading(rows, len, n) == rows_reading(rows, len, m),
    decreases n - m,
{
    if m < n {
        lemma_reading_error_stays(rows, len, m, n - 1);
    }
}

/// The readings of rows name distinct choices below `len`.
pub proof fn lemma_reading_distinct(rows: Seq<ValueModel>, len: int, n: int)
    requires
        rows_reading(rows, len, n) is Ok,
    ensures
        rows_reading(rows, len, n)->Ok_0.len() == if n > 0 { n } else { 0 },
        forall|k: int| 0 <= k < rows_reading(rows, len, n)->Ok_0.len() ==> 0 <= #[trigger] rows_reading(rows, len, n)->Ok_0[k].0 < len,
        forall|j: int, k: int| 0 <= j < k < rows_reading(rows, len, n)->Ok_0.len() ==> #[trigger] rows_reading(rows, len, n)->Ok_0[j].0 != #[trigger] rows_reading(rows, len, n)->Ok_0[k].0,
    decreases n,
{
    if n > 0 {
        lemma_reading_distinct(rows, len, n - 1);
        let before = rows_reading(rows, len, n - 1)->Ok_0;
        let pair = row_reading(rows[n - 1])->Ok_0;
        let after = rows_reading(rows, len, n)->Ok_0;
        assert(after == before.push(pair));
        assert forall|j: int, k: int| 0 <= j < k < after.len() implies #[trigger] after[j].0 != #[trigger] after[k].0 by {
            if k == after.len() - 1 {
                assert(after[j] == before[j]);
                if before[j].0 == pair.0 {
                    assert(exists|m: int| 0 <= m < before.len() && #[trigger] before[m].0 == pair.0);
                }
            }
        }
        assert(pair.0 >= 0) by {
            let row = rows[n - 1];
            let fields = row->Object_0;
            let v = field_of(fields, "value"@)->Some_0;
            lemma_named_position_natural(v);
        }
    }
}

/// A named position is a natural number.
pub proof fn lemma_named_position_natural(value: ValueModel)
    ensures
        named_position(value) matches Some(p) ==> p >= 0,
{
    match value {
        ValueModel::Text(t) => {
            crate::text::lemma_parse_natural_natural(t, usize::MAX as int);
        },
        _ => {},
    }
}

/// The caller's values for a submitted review outcome: its exit, and, unless
/// it was left, each reported row's choice value with its state, in the
/// order of the rows.
pub fn resolve_review<T, A>(value: Value, choices: Vec<ReviewChoice<T>>, actions: Vec<ReviewPromptAction<A>>) -> (resolved: Result<ReviewOutcome<T, A>, Error>)
    ensures
        match review_problem(value@, choices@.len() as int, actions@.len() as int) {
            Some(expected) => resolved matches Err(e) && e.error_kind() == ErrorKind::UnexpectedValue && e.text()
                == unexpected_message(expected),
            None => resolved matches Ok(outcome) && match value@ {
                ValueModel::Object(fields) => match exit_reading(fields, actions@.len() as int) {
                    Ok(ExitReading::Leave) => outcome.review_exit() is Leave && outcome.accepted() is None,
                    Ok(exit) => (match exit {
                        ExitReading::Action(i) => outcome.review_exit() == ReviewExit::Action(actions@[i].value),
                        _ => outcome.review_exit() is Submit,
                    }) && {
                        let rows = field_of(fields, "rows"@)->Some_0->List_0;
                        let pairs = rows_reading(rows, choices@.len() as int, rows.len() as int)->Ok_0;
                        outcome.accepted() matches Some(items) && items.len() == pairs.len() && forall|k: int|
                            0 <= k < items.len() ==> {
                                let choice = choices@[pairs[k].0];
                                &&& (#[trigger] items[k]).item_value() == choice.value
                                &&& items[k].item_state() == pairs[k].1
                                &&& items[k].was_changed() == (pairs[k].1 != choice.state)
                            }
                    },
                    Err(_) => false,
                },
                _ => false,
            },
        },
{
    let fields = match &value {
        Value::Object(fields) => fields,
        _ => return Err(Error::unexpected("a review outcome")),
    };
    let exit = match text_of_field(fields, "exit") {
        Some(exit) => exit,
        None => return Err(Error::unexpected("a review exit")),
    };
    let leave = "leave".to_owned();
    let submit = "submit".to_owned();
    let action = "action".to_owned();
    let mut action_index: Option<usize> = None;
    if *exit == leave {
        return Ok(ReviewOutcome { exit: ReviewExit::Leave, accepted_items: None });
    } else if *exit == submit {
    } else if *exit == action {
        let index = match value_of_field(fields, "action") {
            Some(v) => match position_of(v) {
                Some(index) => index,
                None => return Err(Error::unexpected("a review action")),
            },
            None => return Err(Error::unexpected("a review action")),
        };
        if index >= actions.len() {
            return Err(Error::unexpected("a known review action"));
        }
        action_index = Some(index);
    } else {
        return Err(Error::unexpected("a known review exit"));
    }
    let rows = match value_of_field(fields, "rows") {
        Some(Value::List(rows)) => rows,
        _ => return Err(Error::unexpected("review rows")),
    };
    proof {
        lemma_list_model_len(rows@);
    }
    if rows.len() != choices.len() {
        return Err(Error::unexpected("all review rows"));
    }
    let read = read_rows(rows, choices.len());
    let read = match read {
        Ok(read) => read,
        Err(error) => return Err(error),
    };
    let ghost model = list_model(rows@);
    let ghost pairs = rows_reading(model, choices@.len() as int, model.len() as int)->Ok_0;
    proof {
        lemma_reading_distinct(model, choices@.len() as int, model.len() as int);
    }
    let exit = match action_index {
        Some(index) => {
            let mut actions = actions;
            let chosen = actions.remove(index);
            ReviewExit::Action(chosen.value)
        },
        None => ReviewExit::Submit,
    };
    let ghost all = choices@;
    let n = choices.len();
    let mut rest = choices;
    let mut reversed: Vec<Option<ReviewChoice<T>>> = Vec::new();
    while rest.len() > 0
        invariant
            rest@ == all.subrange(0, rest@.len() as int),
            reversed@.len() + rest@.len() == all.len(),
            forall|k: int| 0 <= k < reversed@.len() ==> #[trigger] reversed@[k] == Some(all[all.len() - 1 - k]),
        decreases rest@.len(),
    {
        let last = rest.pop();
        match last {
            Some(choice) => reversed.push(Some(choice)),
            None => {},
        }
    }
    let mut slots: Vec<Option<ReviewChoice<T>>> = Vec::new();
    while reversed.len() > 0
        invariant
            slots@.len() + reversed@.len() == all.len(),
            forall|k: int| 0 <= k < reversed@.len() ==> #[trigger] reversed@[k] == Some(all[all.len() - 1 - k]),
            forall|k: int| 0 <= k < slots@.len() ==> #[trigger] slots@[k] == Some(all[k]),
        decreases reversed@.len(),
    {
        let next = reversed.pop();
        match next {
            Some(slot) => slots.push(slot),
            None => {},
        }
    }
    let mut items: Vec<Reviewed<T>> = Vec::new();
    let mut k: usize = 0;
    while k < read.len()
        invariant
            k <= read@.len(),
            read@.len() == pairs.len(),
            slots@.len() == all.len(),
            all.len() == n,
            forall|j: int| 0 <= j < pairs.len() ==> (#[trigger] read@[j]).0 as int == pairs[j].0 && read@[j].1 == pairs[j].1,
            forall|j: int| 0 <= j < pairs.len() ==> 0 <= #[trigger] pairs[j].0 < n,
            forall|a: int, b: int| 0 <= a < b < pairs.len() ==> #[trigger] pairs[a].0 != #[trigger] pairs[b].0,
            forall|p: int| 0 <= p < n ==> #[trigger] slots@[p] == if exists|j: int| 0 <= j < k && #[trigger] pairs[j].0 == p {
                None
            } else {
                Some(all[p])
            },
            items@.len() == k,
            forall|j: int| 0 <= j < k ==> {
                let choice = all[pairs[j].0];
                &&& (#[trigger] items@[j]).value == choice.value
                &&& items@[j].state == pairs[j].1
                &&& items@[j].changed == (pairs[j].1 != choice.state)
            },
        decreases read@.len() - k,
    {
        let (index, state) = read[k];
        proof {
            assert(!(exists|j: int| 0 <= j < k && #[trigger] pairs[j].0 == index as int)) by {
                if exists|j: int| 0 <= j < k && #[trigger] pairs[j].0 == index as int {
                    let j = choose|j: int| 0 <= j < k && #[trigger] pairs[j].0 == index as int;
                    assert(pairs[j].0 != pairs[k as int].0);
                }
            }
        }
        let slot = slots.remove(index);
        slots.insert(index, None);
        match slot {
            Some(choice) => {
                let changed = state != choice.state;
                items.push(Reviewed { value: choice.value, state, changed });
            },
            None => {
                assert(false);
            },
        }
        proof {
            assert forall|p: int| 0 <= p < n implies #[trigger] slots@[p] == if exists|j: int| 0 <= j < k + 1 && #[trigger] pairs[j].0 == p {
                None
            } else {
                Some(all[p])
            } by {
                if p == index as int {
                    assert(pairs[k as int].0 == p);
                } else {
                    if exists|j: int| 0 <= j < k + 1 && #[trigger] pairs[j].0 == p {
                        let j = choose|j: int| 0 <= j < k + 1 && #[trigger] pairs[j].0 == p;
                        assert(j < k);
                    }
                }
            }
        }
        k += 1;
    }
    Ok(ReviewOutcome { exit, accepted_items: Some(items) })
}

} // verus!
