//! Typed prompts: builders over the widgets that take the caller's own
//! values, run through an interaction, and give those values back.

use vstd::prelude::*;
use vstd::view::View as _;

use crate::bang::advanced::replay_outcome;
use crate::bang::error::{unexpected_message, Error, ErrorKind};
use crate::bang::interaction::{DriverKind, Interaction};
use crate::bang::prompt::{
    action_keys, action_keys_problem, all_distinct, all_known, choice_items, lemma_named_position_natural,
    named_position, picked_values, resolve_many, resolve_one, resolve_review, validate_review_actions, Choice,
    Configurable, MultiSelectConfig, PromptOutcome, ReviewChoice, ReviewConfig, ReviewExit, ReviewOutcome,
    ReviewPromptAction, Reviewed, SearchConfig, SelectConfig, TextConfig,
};
use crate::bang_core::action::ActionBinding;
use crate::bang_core::review::{ReviewActionBinding, ReviewList, ReviewState};
use crate::bang_core::select::{MultiSelect, Select, SelectItem};
use crate::bang_core::search_select::SearchSelect;
use crate::bang_core::text_input::TextInput;
use crate::bang_core::value::{Value, ValueModel};
use crate::text::{decimal, decimal_chars, IntoText};

verus! {

/// What a single-choice prompt's result comes to: the chosen value for a
/// submitted known position, an unexpected-value error otherwise, a leave
/// for a cancellation, and any other error as it is.
pub open spec fn settles_one<T>(
    result: Result<Value, Error>,
    choices: Seq<Choice<T>>,
    outcome: Result<PromptOutcome<T>, Error>,
) -> bool {
    match result {
        Ok(v) => match named_position(v@) {
            Some(p) => if p < choices.len() {
                outcome == Ok::<PromptOutcome<T>, Error>(PromptOutcome::Submit(choices[p].value))
            } else {
                outcome matches Err(e) && e.error_kind() == ErrorKind::UnexpectedValue && e.text()
                    == unexpected_message("a known choice"@)
            },
            None => outcome matches Err(e) && e.error_kind() == ErrorKind::UnexpectedValue && e.text()
                == unexpected_message("a choice"@),
        },
        Err(e) => if e.error_kind() == ErrorKind::Cancelled {
            outcome matches Ok(PromptOutcome::Leave)
        } else {
            outcome == Err::<PromptOutcome<T>, Error>(e)
        },
    }
}

/// What a multiple-choice prompt's result comes to.
pub open spec fn settles_many<T>(
    result: Result<Value, Error>,
    choices: Seq<Choice<T>>,
    outcome: Result<PromptOutcome<Vec<T>>, Error>,
) -> bool {
    match result {
        Ok(v) => match v@ {
            ValueModel::List(items) => if !all_known(items, choices.len() as int) {
                outcome matches Err(e) && e.error_kind() == ErrorKind::UnexpectedValue && e.text()
                    == unexpected_message("known choices"@)
            } else if !all_distinct(items) {
                outcome matches Err(e) && e.error_kind() == ErrorKind::UnexpectedValue && e.text()
                    == unexpected_message("distinct choices"@)
            } else {
                outcome matches Ok(PromptOutcome::Submit(values)) && values@ == picked_values(
                    choices,
                    items,
                    choices.len() as int,
                )
            },
            _ => outcome matches Err(e) && e.error_kind() == ErrorKind::UnexpectedValue && e.text()
                == unexpected_message("choices"@),
        },
        Err(e) => if e.error_kind() == ErrorKind::Cancelled {
            outcome matches Ok(PromptOutcome::Leave)
        } else {
            outcome == Err::<PromptOutcome<Vec<T>>, Error>(e)
        },
    }
}

/// What a text prompt's result comes to: the submitted text, an
/// unexpected-value error for anything else, a leave for a cancellation.
pub open spec fn settles_text(result: Result<Value, Error>, outcome: Result<PromptOutcome<String>, Error>) -> bool {
    match result {
        Ok(v) => match v@ {
            ValueModel::Text(t) => outcome matches Ok(PromptOutcome::Submit(s)) && s@ == t,
            _ => outcome matches Err(e) && e.error_kind() == ErrorKind::UnexpectedValue && e.text()
                == unexpected_message("text"@),
        },
        Err(e) => if e.error_kind() == ErrorKind::Cancelled {
            outcome matches Ok(PromptOutcome::Leave)
        } else {
            outcome == Err::<PromptOutcome<String>, Error>(e)
        },
    }
}

/// The errors a scripted run of a prompt can end in, besides what the
/// submitted value makes of it.
pub open spec fn scripted_error(e: Error) -> bool {
    e.error_kind() == ErrorKind::InputEnded || e.error_kind() == ErrorKind::InteractionBusy || e.error_kind()
        == ErrorKind::UnexpectedValue
}

/// What running a prompt through an interaction of `kind` can end in: a
/// terminal driver is unavailable in this build, a scripted one gives a
/// submit, a leave, or one of its own errors, and an application's runner
/// gives what it gives.
pub open spec fn prompt_ends<T>(kind: DriverKind, outcome: Result<PromptOutcome<T>, Error>) -> bool {
    match kind {
        DriverKind::Scripted => match outcome {
            Err(e) => scripted_error(e),
            Ok(_) => true,
        },
        DriverKind::Runner => true,
        _ => outcome matches Err(e) && e.error_kind() == ErrorKind::InteractionUnavailable,
    }
}

/// Settle a single-choice prompt's result against its choices.
pub fn settle_one<T>(result: Result<Value, Error>, choices: Vec<Choice<T>>) -> (outcome: Result<
    PromptOutcome<T>,
    Error,
>)
    ensures
        settles_one(result, choices@, outcome),
        outcome matches Ok(PromptOutcome::Submit(t)) ==> exists|i: int| 0 <= i < choices@.len() && choices@[i].value == t,
{
    match result {
        Ok(value) => {
            proof {
                lemma_named_position_natural(value@);
            }
            match resolve_one(&value, choices) {
                Ok(resolved) => Ok(PromptOutcome::Submit(resolved)),
                Err(error) => Err(error),
            }
        },
        Err(error) => {
            if error.kind() == ErrorKind::Cancelled {
                Ok(PromptOutcome::Leave)
            } else {
                Err(error)
            }
        },
    }
}

/// Settle a multiple-choice prompt's result against its choices.
pub fn settle_many<T>(result: Result<Value, Error>, choices: Vec<Choice<T>>) -> (outcome: Result<
    PromptOutcome<Vec<T>>,
    Error,
>)
    ensures
        settles_many(result, choices@, outcome),
{
    match result {
        Ok(value) => match resolve_many(value, choices) {
            Ok(resolved) => Ok(PromptOutcome::Submit(resolved)),
            Err(error) => Err(error),
        },
        Err(error) => {
            if error.kind() == ErrorKind::Cancelled {
                Ok(PromptOutcome::Leave)
            } else {
                Err(error)
            }
        },
    }
}

/// Settle a text prompt's result.
pub fn settle_text(result: Result<Value, Error>) -> (outcome: Result<PromptOutcome<String>, Error>)
    ensures
        settles_text(result, outcome),
{
    match result {
        Ok(Value::String(text)) => Ok(PromptOutcome::Submit(text)),
        Ok(_) => Err(Error::unexpected("text")),
        Err(error) => {
            if error.kind() == ErrorKind::Cancelled {
                Ok(PromptOutcome::Leave)
            } else {
                Err(error)
            }
        },
    }
}

/// A single-choice prompt over the caller's values.
pub struct SelectPrompt<T> {
    id: String,
    choices: Vec<Choice<T>>,
    config: SelectConfig,
    interaction: Interaction,
}

impl<T> SelectPrompt<T> {
    pub closed spec fn prompt_id(&self) -> Seq<char> {
        self.id@
    }

    pub closed spec fn choice_list(&self) -> Seq<Choice<T>> {
        self.choices@
    }

    pub closed spec fn settings(&self) -> SelectConfig {
        self.config
    }

    pub closed spec fn driver(&self) -> DriverKind {
        self.interaction.driver_kind()
    }

    /// A prompt with no choices, the default presentation and the live
    /// terminal driver.
    pub fn new<I: IntoText>(id: I) -> (prompt: Self)
        ensures
            prompt.prompt_id() == id.text_chars(),
            prompt.choice_list().len() == 0,
            prompt.settings().list.header is None,
            prompt.settings().list.wrap,
            prompt.settings().list.page_size == crate::bang_core::select::DEFAULT_PAGE_SIZE,
            prompt.settings().selected is None,
            prompt.driver() == DriverKind::Live,
    {
        SelectPrompt {
            id: id.into_text(),
            choices: Vec::new(),
            config: SelectConfig::default(),
            interaction: Interaction::default(),
        }
    }

    /// Add a choice shown as `label` that stands for `value`.
    pub fn choice<L: IntoText>(self, label: L, value: T) -> (prompt: Self)
        ensures
            prompt.choice_list().len() == self.choice_list().len() + 1,
            prompt.choice_list().drop_last() == self.choice_list(),
            prompt.choice_list().last().label@ == label.text_chars(),
            prompt.choice_list().last().value == value,
            prompt.prompt_id() == self.prompt_id(),
            prompt.settings() == self.settings(),
            prompt.driver() == self.driver(),
    {
        let mut prompt = self;
        prompt.choices.push(Choice { label: label.into_text(), value });
        proof {
            assert(prompt.choices@.drop_last() =~= self.choices@);
        }
        prompt
    }

    pub fn page_size(self, page_size: usize) -> (prompt: Self)
        ensures
            prompt.settings().list.page_size == page_size,
            prompt.settings().list.wrap == self.settings().list.wrap,
            prompt.settings().selected == self.settings().selected,
            prompt.choice_list() == self.choice_list(),
            prompt.prompt_id() == self.prompt_id(),
            prompt.driver() == self.driver(),
    {
        SelectPrompt { config: self.config.page_size(page_size), ..self }
    }

    pub fn header<H: IntoText>(self, header: H) -> (prompt: Self)
        ensures
            prompt.settings().list.header matches Some(h) && h@ == header.text_chars(),
            prompt.settings().list.wrap == self.settings().list.wrap,
            prompt.settings().list.page_size == self.settings().list.page_size,
            prompt.settings().selected == self.settings().selected,
            prompt.choice_list() == self.choice_list(),
            prompt.prompt_id() == self.prompt_id(),
            prompt.driver() == self.driver(),
    {
        SelectPrompt { config: self.config.header(header), ..self }
    }

    pub fn wrap(self, wrap: bool) -> (prompt: Self)
        ensures
            prompt.settings().list.wrap == wrap,
            prompt.settings().list.page_size == self.settings().list.page_size,
            prompt.settings().selected == self.settings().selected,
            prompt.choice_list() == self.choice_list(),
            prompt.prompt_id() == self.prompt_id(),
            prompt.driver() == self.driver(),
    {
        SelectPrompt { config: self.config.wrap(wrap), ..self }
    }

    pub fn selected(self, selected: usize) -> (prompt: Self)
        ensures
            prompt.settings().selected == Some(selected),
            prompt.settings().list.wrap == self.settings().list.wrap,
            prompt.settings().list.page_size == self.settings().list.page_size,
            prompt.choice_list() == self.choice_list(),
            prompt.prompt_id() == self.prompt_id(),
            prompt.driver() == self.driver(),
    {
        SelectPrompt { config: self.config.selected(selected), ..self }
    }

    /// Run with `interaction` in place of the live terminal.
    pub fn interaction(self, interaction: Interaction) -> (prompt: Self)
        ensures
            prompt.driver() == interaction.driver_kind(),
            prompt.choice_list() == self.choice_list(),
            prompt.settings() == self.settings(),
            prompt.prompt_id() == self.prompt_id(),
    {
        SelectPrompt { interaction, ..self }
    }

    /// The list widget for the choices, each valued by its position, and
    /// the choices themselves.
    pub fn into_widget(self) -> (parts: (Select, Vec<Choice<T>>))
        ensures
            parts.0.identity_text() == self.prompt_id(),
            parts.0.choices().len() == self.choice_list().len(),
            forall|i: int| 0 <= i < self.choice_list().len() ==> #[trigger] parts.0.choices()[i].label@
                == self.choice_list()[i].label@ && parts.0.choices()[i].value@ == ValueModel::Text(
                decimal_chars(i as nat),
            ),
            self.choice_list().len() > 0 ==> parts.0.selection() == match self.settings().selected {
                Some(s) => if s < self.choice_list().len() {
                    s as nat
                } else {
                    (self.choice_list().len() - 1) as nat
                },
                None => 0,
            },
            parts.0.rows_per_page() == if self.settings().list.page_size > 1 {
                self.settings().list.page_size
            } else {
                1
            },
            parts.0.wraps() == self.settings().list.wrap,
            parts.1@ == self.choice_list(),
    {
        let items = choice_items(&self.choices);
        let mut widget = Select::new(self.id, items).with_page_size(self.config.list.page_size).with_wrap(
            self.config.list.wrap,
        );
        if let Some(header) = self.config.list.header {
            widget = widget.with_header(header);
        }
        if let Some(selected) = self.config.selected {
            widget = widget.with_selected_index(selected);
        }
        (widget, self.choices)
    }

    /// Run the prompt and give back the chosen value, or a leave.
    pub fn interact(self) -> (outcome: Result<PromptOutcome<T>, Error>)
        ensures
            prompt_ends(self.driver(), outcome),
            outcome matches Ok(PromptOutcome::Submit(t)) ==> exists|i: int|
                0 <= i < self.choice_list().len() && self.choice_list()[i].value == t,
    {
        let interaction = self.interaction.clone();
        let (widget, choices) = self.into_widget();
        let actions: Vec<ActionBinding> = Vec::new();
        let result = interaction.interact(widget, actions);
        settle_one(result, choices)
    }
}

impl<T> Configurable for SelectPrompt<T> {
    type Config = SelectConfig;

    fn with_config(self, config: SelectConfig) -> (prompt: Self)
        ensures
            prompt.settings() == config,
            prompt.prompt_id() == self.prompt_id(),
            prompt.choice_list() == self.choice_list(),
            prompt.driver() == self.driver(),
    {
        SelectPrompt { config, ..self }
    }
}

/// A single-choice prompt named `id`.
pub fn select<T, I: IntoText>(id: I) -> (prompt: SelectPrompt<T>)
    ensures
        prompt.prompt_id() == id.text_chars(),
        prompt.choice_list().len() == 0,
        prompt.driver() == DriverKind::Live,
{
    SelectPrompt::new(id)
}

/// A multiple-choice prompt over the caller's values.
pub struct MultiSelectPrompt<T> {
    id: String,
    choices: Vec<Choice<T>>,
    config: MultiSelectConfig,
    interaction: Interaction,
}

impl<T> MultiSelectPrompt<T> {
    pub closed spec fn prompt_id(&self) -> Seq<char> {
        self.id@
    }

    pub closed spec fn choice_list(&self) -> Seq<Choice<T>> {
        self.choices@
    }

    pub closed spec fn settings(&self) -> MultiSelectConfig {
        self.config
    }

    pub closed spec fn driver(&self) -> DriverKind {
        self.interaction.driver_kind()
    }

    /// Whether `other` is this prompt with its configuration alone changed.
    pub open spec fn keeps_all_but_config(&self, other: &Self) -> bool {
        &&& other.prompt_id() == self.prompt_id()
        &&& other.choice_list() == self.choice_list()
        &&& other.driver() == self.driver()
    }

    /// A prompt with no choices, none checked, the default presentation and
    /// the live terminal driver.
    pub fn new<I: IntoText>(id: I) -> (prompt: Self)
        ensures
            prompt.prompt_id() == id.text_chars(),
            prompt.choice_list().len() == 0,
            prompt.settings().list.header is None,
            prompt.settings().list.wrap,
            prompt.settings().list.page_size == crate::bang_core::select::DEFAULT_PAGE_SIZE,
            prompt.settings().selected is None,
            prompt.settings().checked@.len() == 0,
            prompt.driver() == DriverKind::Live,
    {
        MultiSelectPrompt {
            id: id.into_text(),
            choices: Vec::new(),
            config: MultiSelectConfig::default(),
            interaction: Interaction::default(),
        }
    }

    pub fn choice<L: IntoText>(self, label: L, value: T) -> (prompt: Self)
        ensures
            prompt.choice_list().len() == self.choice_list().len() + 1,
            prompt.choice_list().drop_last() == self.choice_list(),
            prompt.choice_list().last().label@ == label.text_chars(),
            prompt.choice_list().last().value == value,
            prompt.prompt_id() == self.prompt_id(),
            prompt.settings() == self.settings(),
            prompt.driver() == self.driver(),
    {
        let mut prompt = self;
        prompt.choices.push(Choice { label: label.into_text(), value });
        proof {
            assert(prompt.choices@.drop_last() =~= self.choices@);
        }
        prompt
    }

    pub fn page_size(self, page_size: usize) -> (prompt: Self)
        ensures
            prompt.settings().list.page_size == page_size,
            prompt.settings().list.wrap == self.settings().list.wrap,
            prompt.settings().selected == self.settings().selected,
            prompt.settings().checked@ == self.settings().checked@,
            self.keeps_all_but_config(&prompt),
    {
        MultiSelectPrompt { config: self.config.page_size(page_size), ..self }
    }

    pub fn header<H: IntoText>(self, header: H) -> (prompt: Self)
        ensures
            prompt.settings().list.header matches Some(h) && h@ == header.text_chars(),
            prompt.settings().list.page_size == self.settings().list.page_size,
            prompt.settings().selected == self.settings().selected,
            prompt.settings().checked@ == self.settings().checked@,
            self.keeps_all_but_config(&prompt),
    {
        MultiSelectPrompt { config: self.config.header(header), ..self }
    }

    pub fn wrap(self, wrap: bool) -> (prompt: Self)
        ensures
            prompt.settings().list.wrap == wrap,
            prompt.settings().list.page_size == self.settings().list.page_size,
            prompt.settings().selected == self.settings().selected,
            prompt.settings().checked@ == self.settings().checked@,
            self.keeps_all_but_config(&prompt),
    {
        MultiSelectPrompt { config: self.config.wrap(wrap), ..self }
    }

    pub fn selected(self, selected: usize) -> (prompt: Self)
        ensures
            prompt.settings().selected == Some(selected),
            prompt.settings().list.page_size == self.settings().list.page_size,
            prompt.settings().checked@ == self.settings().checked@,
            self.keeps_all_but_config(&prompt),
    {
        MultiSelectPrompt { config: self.config.selected(selected), ..self }
    }

    /// Check row `index` at the start.
    pub fn checked(self, index: usize) -> (prompt: Self)
        ensures
            prompt.settings().checked@ == self.settings().checked@.push(index),
            prompt.settings().selected == self.settings().selected,
            prompt.settings().list.page_size == self.settings().list.page_size,
            self.keeps_all_but_config(&prompt),
    {
        MultiSelectPrompt { config: self.config.checked(index), ..self }
    }

    pub fn interaction(self, interaction: Interaction) -> (prompt: Self)
        ensures
            prompt.driver() == interaction.driver_kind(),
            prompt.choice_list() == self.choice_list(),
            prompt.settings() == self.settings(),
            prompt.prompt_id() == self.prompt_id(),
    {
        MultiSelectPrompt { interaction, ..self }
    }

    /// The checklist widget for the choices, each valued by its position,
    /// with the configured rows checked, and the choices themselves.
    pub fn into_widget(self) -> (parts: (MultiSelect, Vec<Choice<T>>))
        ensures
            parts.0.choices().len() == self.choice_list().len(),
            forall|i: int| 0 <= i < self.choice_list().len() ==> #[trigger] parts.0.choices()[i].label@
                == self.choice_list()[i].label@ && parts.0.choices()[i].value@ == ValueModel::Text(
                decimal_chars(i as nat),
            ),
            forall|i: int| 0 <= i < self.choice_list().len() ==> #[trigger] parts.0.marks()[i]
                == crate::bang_core::select::names_index(self.settings().checked@, i),
            parts.1@ == self.choice_list(),
    {
        let items = choice_items(&self.choices);
        let mut widget = MultiSelect::new(self.id, items).with_page_size(self.config.list.page_size).with_wrap(
            self.config.list.wrap,
        ).with_checked_indices(self.config.checked);
        if let Some(header) = self.config.list.header {
            widget = widget.with_header(header);
        }
        if let Some(selected) = self.config.selected {
            widget = widget.with_selected_index(selected);
        }
        (widget, self.choices)
    }

    /// Run the prompt and give back the checked values in the order of the
    /// choices, or a leave.
    pub fn interact(self) -> (outcome: Result<PromptOutcome<Vec<T>>, Error>)
        ensures
            prompt_ends(self.driver(), outcome),
    {
        let interaction = self.interaction.clone();
        let (widget, choices) = self.into_widget();
        let actions: Vec<ActionBinding> = Vec::new();
        let result = interaction.interact(widget, actions);
        settle_many(result, choices)
    }
}

impl<T> Configurable for MultiSelectPrompt<T> {
    type Config = MultiSelectConfig;

    fn with_config(self, config: MultiSelectConfig) -> (prompt: Self)
        ensures
            prompt.settings() == config,
            prompt.prompt_id() == self.prompt_id(),
            prompt.choice_list() == self.choice_list(),
            prompt.driver() == self.driver(),
    {
        MultiSelectPrompt { config, ..self }
    }
}

/// A multiple-choice prompt named `id`.
pub fn multi_select<T, I: IntoText>(id: I) -> (prompt: MultiSelectPrompt<T>)
    ensures
        prompt.prompt_id() == id.text_chars(),
        prompt.choice_list().len() == 0,
        prompt.driver() == DriverKind::Live,
{
    MultiSelectPrompt::new(id)
}

/// A searchable single-choice prompt over the caller's values.
pub struct SearchPrompt<T> {
    id: String,
    choices: Vec<Choice<T>>,
    config: SearchConfig,
    interaction: Interaction,
}

impl<T> SearchPrompt<T> {
    pub closed spec fn prompt_id(&self) -> Seq<char> {
        self.id@
    }

    pub closed spec fn choice_list(&self) -> Seq<Choice<T>> {
        self.choices@
    }

    pub closed spec fn settings(&self) -> SearchConfig {
        self.config
    }

    pub closed spec fn driver(&self) -> DriverKind {
        self.interaction.driver_kind()
    }

    /// Whether `other` is this prompt with its configuration alone changed.
    pub open spec fn keeps_all_but_config(&self, other: &Self) -> bool {
        &&& other.prompt_id() == self.prompt_id()
        &&& other.choice_list() == self.choice_list()
        &&& other.driver() == self.driver()
    }

    /// A prompt with no choices, the default presentation and the live
    /// terminal driver.
    pub fn new<I: IntoText>(id: I) -> (prompt: Self)
        ensures
            prompt.prompt_id() == id.text_chars(),
            prompt.choice_list().len() == 0,
            prompt.settings().list.header is None,
            prompt.settings().list.wrap,
            prompt.settings().list.page_size == crate::bang_core::select::DEFAULT_PAGE_SIZE,
            prompt.settings().prompt is None,
            prompt.settings().placeholder is None,
            prompt.settings().selected is None,
            prompt.driver() == DriverKind::Live,
    {
        SearchPrompt {
            id: id.into_text(),
            choices: Vec::new(),
            config: SearchConfig::default(),
            interaction: Interaction::default(),
        }
    }

    pub fn choice<L: IntoText>(self, label: L, value: T) -> (prompt: Self)
        ensures
            prompt.choice_list().len() == self.choice_list().len() + 1,
            prompt.choice_list().drop_last() == self.choice_list(),
            prompt.choice_list().last().label@ == label.text_chars(),
            prompt.choice_list().last().value == value,
            prompt.prompt_id() == self.prompt_id(),
            prompt.settings() == self.settings(),
            prompt.driver() == self.driver(),
    {
        let mut prompt = self;
        prompt.choices.push(Choice { label: label.into_text(), value });
        proof {
            assert(prompt.choices@.drop_last() =~= self.choices@);
        }
        prompt
    }

    pub fn page_size(self, page_size: usize) -> (prompt: Self)
        ensures
            prompt.settings().list.page_size == page_size,
            prompt.settings().list.wrap == self.settings().list.wrap,
            prompt.settings().selected == self.settings().selected,
            self.keeps_all_but_config(&prompt),
    {
        SearchPrompt { config: self.config.page_size(page_size), ..self }
    }

    pub fn header<H: IntoText>(self, header: H) -> (prompt: Self)
        ensures
            prompt.settings().list.header matches Some(h) && h@ == header.text_chars(),
            prompt.settings().list.page_size == self.settings().list.page_size,
            prompt.settings().selected == self.settings().selected,
            self.keeps_all_but_config(&prompt),
    {
        SearchPrompt { config: self.config.header(header), ..self }
    }

    pub fn wrap(self, wrap: bool) -> (prompt: Self)
        ensures
            prompt.settings().list.wrap == wrap,
            prompt.settings().list.page_size == self.settings().list.page_size,
            prompt.settings().selected == self.settings().selected,
            self.keeps_all_but_config(&prompt),
    {
        SearchPrompt { config: self.config.wrap(wrap), ..self }
    }

    /// The prompt of the query input.
    pub fn prompt<P: IntoText>(self, prompt: P) -> (built: Self)
        ensures
            built.settings().prompt matches Some(p) && p@ == prompt.text_chars(),
            built.settings().selected == self.settings().selected,
            built.settings().list.page_size == self.settings().list.page_size,
            self.keeps_all_but_config(&built),
    {
        SearchPrompt { config: self.config.prompt(prompt), ..self }
    }

    pub fn placeholder<P: IntoText>(self, placeholder: P) -> (prompt: Self)
        ensures
            prompt.settings().placeholder matches Some(p) && p@ == placeholder.text_chars(),
            prompt.settings().selected == self.settings().selected,
            prompt.settings().list.page_size == self.settings().list.page_size,
            self.keeps_all_but_config(&prompt),
    {
        SearchPrompt { config: self.config.placeholder(placeholder), ..self }
    }

    pub fn selected(self, selected: usize) -> (prompt: Self)
        ensures
            prompt.settings().selected == Some(selected),
            prompt.settings().list.page_size == self.settings().list.page_size,
            self.keeps_all_but_config(&prompt),
    {
        SearchPrompt { config: self.config.selected(selected), ..self }
    }

    pub fn interaction(self, interaction: Interaction) -> (prompt: Self)
        ensures
            prompt.driver() == interaction.driver_kind(),
            prompt.choice_list() == self.choice_list(),
            prompt.settings() == self.settings(),
            prompt.prompt_id() == self.prompt_id(),
    {
        SearchPrompt { interaction, ..self }
    }

    /// The search widget for the choices, each valued by its position, and
    /// the choices themselves.
    pub fn into_widget(self) -> (parts: (SearchSelect, Vec<Choice<T>>))
        ensures
            parts.0.choices().len() == self.choice_list().len(),
            forall|i: int| 0 <= i < self.choice_list().len() ==> #[trigger] parts.0.choices()[i].label@
                == self.choice_list()[i].label@ && parts.0.choices()[i].value@ == ValueModel::Text(
                decimal_chars(i as nat),
            ),
            parts.1@ == self.choice_list(),
    {
        let items = choice_items(&self.choices);
        let mut widget = SearchSelect::new(self.id, items).with_page_size(self.config.list.page_size).with_wrap(
            self.config.list.wrap,
        );
        if let Some(header) = self.config.list.header {
            widget = widget.with_header(header);
        }
        if let Some(prompt) = self.config.prompt {
            widget = widget.with_prompt(prompt);
        }
        if let Some(placeholder) = self.config.placeholder {
            widget = widget.with_placeholder(placeholder);
        }
        if let Some(selected) = self.config.selected {
            widget = widget.with_selected_match_index(selected);
        }
        (widget, self.choices)
    }

    /// Run the prompt and give back the chosen value, or a leave.
    pub fn interact(self) -> (outcome: Result<PromptOutcome<T>, Error>)
        ensures
            prompt_ends(self.driver(), outcome),
            outcome matches Ok(PromptOutcome::Submit(t)) ==> exists|i: int|
                0 <= i < self.choice_list().len() && self.choice_list()[i].value == t,
    {
        let interaction = self.interaction.clone();
        let (widget, choices) = self.into_widget();
        let actions: Vec<ActionBinding> = Vec::new();
        let result = interaction.interact(widget, actions);
        settle_one(result, choices)
    }
}

impl<T> Configurable for SearchPrompt<T> {
    type Config = SearchConfig;

    fn with_config(self, config: SearchConfig) -> (prompt: Self)
        ensures
            prompt.settings() == config,
            prompt.prompt_id() == self.prompt_id(),
            prompt.choice_list() == self.choice_list(),
            prompt.driver() == self.driver(),
    {
        SearchPrompt { config, ..self }
    }
}

/// A searchable single-choice prompt named `id`.
pub fn search<T, I: IntoText>(id: I) -> (prompt: SearchPrompt<T>)
    ensures
        prompt.prompt_id() == id.text_chars(),
        prompt.choice_list().len() == 0,
        prompt.driver() == DriverKind::Live,
{
    SearchPrompt::new(id)
}

/// A free-text prompt.
pub struct TextPrompt {
    prompt: String,
    config: TextConfig,
    interaction: Interaction,
}

impl TextPrompt {
    pub closed spec fn prompt_text(&self) -> Seq<char> {
        self.prompt@
    }

    pub closed spec fn id_setting(&self) -> Option<Seq<char>> {
        match self.config.id {
            Some(id) => Some(id@),
            None => None,
        }
    }

    pub closed spec fn value_setting(&self) -> Option<Seq<char>> {
        match self.config.value {
            Some(value) => Some(value@),
            None => None,
        }
    }

    pub closed spec fn placeholder_setting(&self) -> Option<Seq<char>> {
        match self.config.placeholder {
            Some(placeholder) => Some(placeholder@),
            None => None,
        }
    }

    pub closed spec fn is_validated(&self) -> bool {
        self.config.validator is Some
    }

    pub closed spec fn driver(&self) -> DriverKind {
        self.interaction.driver_kind()
    }

    /// A prompt showing `prompt`, with the default settings and the live
    /// terminal driver.
    pub fn new<P: IntoText>(prompt: P) -> (built: Self)
        ensures
            built.prompt_text() == prompt.text_chars(),
            built.id_setting() is None,
            built.value_setting() is None,
            built.placeholder_setting() is None,
            !built.is_validated(),
            built.driver() == DriverKind::Live,
    {
        TextPrompt { prompt: prompt.into_text(), config: TextConfig::default(), interaction: Interaction::default() }
    }

    /// The identity of the input (`text` unless set).
    pub fn id<I: IntoText>(self, id: I) -> (built: Self)
        ensures
            built.id_setting() == Some(id.text_chars()),
            built.value_setting() == self.value_setting(),
            built.placeholder_setting() == self.placeholder_setting(),
            built.prompt_text() == self.prompt_text(),
            built.driver() == self.driver(),
    {
        TextPrompt { config: self.config.id(id), ..self }
    }

    pub fn placeholder<P: IntoText>(self, placeholder: P) -> (built: Self)
        ensures
            built.placeholder_setting() == Some(placeholder.text_chars()),
            built.id_setting() == self.id_setting(),
            built.value_setting() == self.value_setting(),
            built.prompt_text() == self.prompt_text(),
            built.driver() == self.driver(),
    {
        TextPrompt { config: self.config.placeholder(placeholder), ..self }
    }

    /// The text the input starts with.
    pub fn value<V: IntoText>(self, value: V) -> (built: Self)
        ensures
            built.value_setting() == Some(value.text_chars()),
            built.id_setting() == self.id_setting(),
            built.placeholder_setting() == self.placeholder_setting(),
            built.prompt_text() == self.prompt_text(),
            built.driver() == self.driver(),
    {
        TextPrompt { config: self.config.value(value), ..self }
    }

    /// Check the text with `validator` before it is submitted.
    pub fn validator<F: crate::bang_core::text_input::Validate + 'static>(self, validator: F) -> (built: Self)
        ensures
            built.is_validated(),
            built.id_setting() == self.id_setting(),
            built.value_setting() == self.value_setting(),
            built.placeholder_setting() == self.placeholder_setting(),
            built.prompt_text() == self.prompt_text(),
            built.driver() == self.driver(),
    {
        TextPrompt { config: self.config.validator(validator), ..self }
    }

    pub fn interaction(self, interaction: Interaction) -> (built: Self)
        ensures
            built.driver() == interaction.driver_kind(),
            built.prompt_text() == self.prompt_text(),
            built.id_setting() == self.id_setting(),
            built.value_setting() == self.value_setting(),
            built.placeholder_setting() == self.placeholder_setting(),
            built.is_validated() == self.is_validated(),
    {
        TextPrompt { interaction, ..self }
    }

    /// The text input for this prompt.
    pub fn into_widget(self) -> (input: TextInput)
        ensures
            input.identity_text() == match self.id_setting() {
                Some(id) => id,
                None => "text"@,
            },
            input.prompt_spans().len() == 1,
            input.prompt_spans()[0].text@ == self.prompt_text(),
            input.placeholder_text() == self.placeholder_setting(),
            input.text() == match self.value_setting() {
                Some(value) => value,
                None => Seq::empty(),
            },
            input.validated() == self.is_validated(),
    {
        let id = match self.config.id {
            Some(id) => id,
            None => "text".to_owned(),
        };
        let mut widget = TextInput::new(id).with_prompt(self.prompt);
        if let Some(placeholder) = self.config.placeholder {
            widget = widget.with_placeholder(placeholder);
        }
        if let Some(value) = self.config.value {
            widget = widget.with_value(value);
        }
        if let Some(validator) = self.config.validator {
            widget = widget.with_boxed_validator(validator);
        }
        widget
    }

    /// Run the prompt and give back the submitted text, or a leave.
    pub fn interact(self) -> (outcome: Result<PromptOutcome<String>, Error>)
        ensures
            prompt_ends(self.driver(), outcome),
    {
        let interaction = self.interaction.clone();
        let widget = self.into_widget();
        let actions: Vec<ActionBinding> = Vec::new();
        let result = interaction.interact(widget, actions);
        settle_text(result)
    }
}

impl Configurable for TextPrompt {
    type Config = TextConfig;

    fn with_config(self, config: TextConfig) -> (prompt: Self)
        ensures
            prompt.id_setting() == match config.id {
                Some(id) => Some(id@),
                None => None,
            },
            prompt.value_setting() == match config.value {
                Some(value) => Some(value@),
                None => None,
            },
            prompt.placeholder_setting() == match config.placeholder {
                Some(placeholder) => Some(placeholder@),
                None => None,
            },
            prompt.is_validated() == config.validator is Some,
            prompt.prompt_text() == self.prompt_text(),
            prompt.driver() == self.driver(),
    {
        TextPrompt { config, ..self }
    }
}

/// A free-text prompt showing `prompt`.
pub fn text<P: IntoText>(prompt: P) -> (built: TextPrompt)
    ensures
        built.prompt_text() == prompt.text_chars(),
        built.driver() == DriverKind::Live,
{
    TextPrompt::new(prompt)
}

/// The items a review shows for its rows: each label, valued by its
/// position in decimal.
fn review_items<T>(choices: &Vec<ReviewChoice<T>>) -> (items: Vec<SelectItem>)
    ensures
        items@.len() == choices@.len(),
        forall|i: int| 0 <= i < choices@.len() ==> #[trigger] items@[i].label@ == choices@[i].label@
            && items@[i].value@ == ValueModel::Text(decimal_chars(i as nat)),
{
    let mut items: Vec<SelectItem> = Vec::new();
    let mut i: usize = 0;
    while i < choices.len()
        invariant
            i <= choices@.len(),
            items@.len() == i,
            forall|k: int| 0 <= k < i ==> #[trigger] items@[k].label@ == choices@[k].label@
                && items@[k].value@ == ValueModel::Text(decimal_chars(k as nat)),
        decreases choices@.len() - i,
    {
        let label = choices[i].label.clone();
        items.push(SelectItem { label, value: Value::String(decimal(i as u64)) });
        i += 1;
    }
    items
}

/// The states the review rows start in.
fn review_states<T>(choices: &Vec<ReviewChoice<T>>) -> (states: Vec<ReviewState>)
    ensures
        states@.len() == choices@.len(),
        forall|i: int| 0 <= i < choices@.len() ==> #[trigger] states@[i] == choices@[i].state,
{
    let mut states: Vec<ReviewState> = Vec::new();
    let mut i: usize = 0;
    while i < choices.len()
        invariant
            i <= choices@.len(),
            states@.len() == i,
            forall|k: int| 0 <= k < i ==> #[trigger] states@[k] == choices@[k].state,
        decreases choices@.len() - i,
    {
        states.push(choices[i].state);
        i += 1;
    }
    states
}

/// The review key bindings of typed actions: each key, named by the
/// action's position in decimal, with the action's help.
fn review_bindings<A>(actions: &Vec<ReviewPromptAction<A>>) -> (bindings: Vec<ReviewActionBinding>)
    ensures
        bindings@.len() == actions@.len(),
        forall|i: int| 0 <= i < actions@.len() ==> {
            &&& (#[trigger] bindings@[i]).bound_key() == actions@[i].key
            &&& bindings@[i].action_name() == decimal_chars(i as nat)
            &&& bindings@[i].help_text() == actions@[i].help@
        },
{
    let mut bindings: Vec<ReviewActionBinding> = Vec::new();
    let mut i: usize = 0;
    while i < actions.len()
        invariant
            i <= actions@.len(),
            bindings@.len() == i,
            forall|k: int| 0 <= k < i ==> {
                &&& (#[trigger] bindings@[k]).bound_key() == actions@[k].key
                &&& bindings@[k].action_name() == decimal_chars(k as nat)
                &&& bindings@[k].help_text() == actions@[k].help@
            },
        decreases actions@.len() - i,
    {
        let help = actions[i].help.clone();
        bindings.push(ReviewActionBinding::new(actions[i].key, decimal(i as u64)).with_help(help));
        i += 1;
    }
    bindings
}

/// The review widget for `choices` under `config`, reporting how it was
/// left, with `actions` bound by position.
fn review_widget<T, A>(
    id: String,
    choices: &Vec<ReviewChoice<T>>,
    config: ReviewConfig,
    actions: &Vec<ReviewPromptAction<A>>,
) -> (widget: ReviewList)
    ensures
        widget.choices().len() == choices@.len(),
        forall|i: int| 0 <= i < choices@.len() ==> #[trigger] widget.choices()[i].label@ == choices@[i].label@
            && widget.choices()[i].value@ == ValueModel::Text(decimal_chars(i as nat)),
        forall|i: int| 0 <= i < choices@.len() ==> #[trigger] widget.row_states()[i] == choices@[i].state,
        widget.actions().len() == actions@.len(),
{
    let items = review_items(choices);
    let states = review_states(choices);
    let bindings = review_bindings(actions);
    let mut widget = ReviewList::new(id, items).with_page_size(config.list.page_size).with_wrap(config.list.wrap)
        .with_show_removed(config.show_removed).with_exit_output(true).with_states(states).with_custom_actions(
        bindings,
    );
    if let Some(header) = config.list.header {
        widget = widget.with_header(header);
    }
    if let Some(selected) = config.selected {
        widget = widget.with_selected_index(selected);
    }
    widget
}

/// The errors a scripted review can end in, besides what the submitted
/// value makes of it: a review passes its cancellation on.
pub open spec fn review_ends<T>(kind: DriverKind, outcome: Result<T, Error>) -> bool {
    match kind {
        DriverKind::Scripted => match outcome {
            Err(e) => scripted_error(e) || e.error_kind() == ErrorKind::Cancelled,
            Ok(_) => true,
        },
        DriverKind::Runner => true,
        _ => outcome matches Err(e) && e.error_kind() == ErrorKind::InteractionUnavailable,
    }
}

/// A review prompt with ordinary submit and leave outcomes.
pub struct ReviewPrompt<T> {
    id: String,
    choices: Vec<ReviewChoice<T>>,
    config: ReviewConfig,
    interaction: Interaction,
}

impl<T> ReviewPrompt<T> {
    pub closed spec fn prompt_id(&self) -> Seq<char> {
        self.id@
    }

    pub closed spec fn choice_list(&self) -> Seq<ReviewChoice<T>> {
        self.choices@
    }

    pub closed spec fn settings(&self) -> ReviewConfig {
        self.config
    }

    pub closed spec fn driver(&self) -> DriverKind {
        self.interaction.driver_kind()
    }

    /// Whether `other` is this prompt with its configuration alone changed.
    pub open spec fn keeps_all_but_config(&self, other: &Self) -> bool {
        &&& other.prompt_id() == self.prompt_id()
        &&& other.choice_list() == self.choice_list()
        &&& other.driver() == self.driver()
    }

    /// A review with no rows, the default presentation and the live
    /// terminal driver.
    pub fn new<I: IntoText>(id: I) -> (prompt: Self)
        ensures
            prompt.prompt_id() == id.text_chars(),
            prompt.choice_list().len() == 0,
            prompt.settings().list.header is None,
            prompt.settings().list.wrap,
            prompt.settings().list.page_size == crate::bang_core::select::DEFAULT_PAGE_SIZE,
            prompt.settings().selected is None,
            prompt.settings().show_removed,
            prompt.driver() == DriverKind::Live,
    {
        ReviewPrompt {
            id: id.into_text(),
            choices: Vec::new(),
            config: ReviewConfig::default(),
            interaction: Interaction::default(),
        }
    }

    pub fn header<H: IntoText>(self, header: H) -> (prompt: Self)
        ensures
            prompt.settings().list.header matches Some(h) && h@ == header.text_chars(),
            prompt.settings().list.page_size == self.settings().list.page_size,
            prompt.settings().selected == self.settings().selected,
            prompt.settings().show_removed == self.settings().show_removed,
            self.keeps_all_but_config(&prompt),
    {
        ReviewPrompt { config: self.config.header(header), ..self }
    }

    /// Add a row shown as `label`, standing for `value`, starting in `state`.
    pub fn item<L: IntoText>(self, label: L, value: T, state: ReviewState) -> (prompt: Self)
        ensures
            prompt.choice_list().len() == self.choice_list().len() + 1,
            prompt.choice_list().drop_last() == self.choice_list(),
            prompt.choice_list().last().label@ == label.text_chars(),
            prompt.choice_list().last().value == value,
            prompt.choice_list().last().state == state,
            prompt.prompt_id() == self.prompt_id(),
            prompt.settings() == self.settings(),
            prompt.driver() == self.driver(),
    {
        let mut prompt = self;
        prompt.choices.push(ReviewChoice { label: label.into_text(), value, state });
        proof {
            assert(prompt.choices@.drop_last() =~= self.choices@);
        }
        prompt
    }

    pub fn page_size(self, page_size: usize) -> (prompt: Self)
        ensures
            prompt.settings().list.page_size == page_size,
            prompt.settings().list.wrap == self.settings().list.wrap,
            prompt.settings().selected == self.settings().selected,
            prompt.settings().show_removed == self.settings().show_removed,
            self.keeps_all_but_config(&prompt),
    {
        ReviewPrompt { config: self.config.page_size(page_size), ..self }
    }

    pub fn wrap(self, wrap: bool) -> (prompt: Self)
        ensures
            prompt.settings().list.wrap == wrap,
            prompt.settings().list.page_size == self.settings().list.page_size,
            prompt.settings().selected == self.settings().selected,
            prompt.settings().show_removed == self.settings().show_removed,
            self.keeps_all_but_config(&prompt),
    {
        ReviewPrompt { config: self.config.wrap(wrap), ..self }
    }

    pub fn selected(self, selected: usize) -> (prompt: Self)
        ensures
            prompt.settings().selected == Some(selected),
            prompt.settings().list.page_size == self.settings().list.page_size,
            prompt.settings().show_removed == self.settings().show_removed,
            self.keeps_all_but_config(&prompt),
    {
        ReviewPrompt { config: self.config.selected(selected), ..self }
    }

    pub fn show_removed(self, show_removed: bool) -> (prompt: Self)
        ensures
            prompt.settings().show_removed == show_removed,
            prompt.settings().selected == self.settings().selected,
            prompt.settings().list.page_size == self.settings().list.page_size,
            self.keeps_all_but_config(&prompt),
    {
        ReviewPrompt { config: self.config.show_removed(show_removed), ..self }
    }

    pub fn interaction(self, interaction: Interaction) -> (prompt: Self)
        ensures
            prompt.driver() == interaction.driver_kind(),
            prompt.choice_list() == self.choice_list(),
            prompt.settings() == self.settings(),
            prompt.prompt_id() == self.prompt_id(),
    {
        ReviewPrompt { interaction, ..self }
    }

    /// Add the first typed action and move to an action-bearing review.
    pub fn action<A, H: IntoText>(self, key: char, help: H, value: A) -> (prompt: ReviewPromptWithActions<T, A>)
        ensures
            prompt.prompt_id() == self.prompt_id(),
            prompt.choice_list() == self.choice_list(),
            prompt.settings() == self.settings(),
            prompt.driver() == self.driver(),
            prompt.action_list().len() == 1,
            prompt.action_list()[0].key == key,
            prompt.action_list()[0].help@ == help.text_chars(),
            prompt.action_list()[0].value == value,
    {
        let mut actions: Vec<ReviewPromptAction<A>> = Vec::new();
        actions.push(ReviewPromptAction { key, help: help.into_text(), value });
        ReviewPromptWithActions {
            id: self.id,
            choices: self.choices,
            config: self.config,
            interaction: self.interaction,
            actions,
        }
    }

    /// The review widget for the rows, each valued by its position, and the
    /// rows themselves.
    pub fn into_widget(self) -> (parts: (ReviewList, Vec<ReviewChoice<T>>))
        ensures
            parts.0.choices().len() == self.choice_list().len(),
            forall|i: int| 0 <= i < self.choice_list().len() ==> #[trigger] parts.0.row_states()[i]
                == self.choice_list()[i].state,
            parts.0.actions().len() == 0,
            parts.1@ == self.choice_list(),
    {
        let actions: Vec<ReviewPromptAction<()>> = Vec::new();
        let widget = review_widget(self.id, &self.choices, self.config, &actions);
        (widget, self.choices)
    }

    /// Run the review and give back the accepted rows, or a leave.
    pub fn interact(self) -> (outcome: Result<PromptOutcome<Vec<Reviewed<T>>>, Error>)
        ensures
            review_ends(self.driver(), outcome),
    {
        let interaction = self.interaction.clone();
        let (widget, choices) = self.into_widget();
        let bindings: Vec<ActionBinding> = Vec::new();
        let value = interaction.interact(widget, bindings)?;
        let ghost model = value@;
        let actions: Vec<ReviewPromptAction<()>> = Vec::new();
        let outcome = resolve_review(value, choices, actions)?;
        let (exit, items) = outcome.into_parts();
        match exit {
            ReviewExit::Submit => match items {
                Some(items) => Ok(PromptOutcome::Submit(items)),
                None => Err(Error::unexpected("accepted review items")),
            },
            ReviewExit::Leave => Ok(PromptOutcome::Leave),
            ReviewExit::Action(_) => {
                proof {
                    match model {
                        ValueModel::Object(fields) => match crate::bang_core::value::field_of(fields, "action"@) {
                            Some(a) => lemma_named_position_natural(a),
                            None => {},
                        },
                        _ => {},
                    }
                }
                assert(false);
                Err(Error::unexpected("a known review action"))
            },
        }
    }
}

impl<T> Configurable for ReviewPrompt<T> {
    type Config = ReviewConfig;

    fn with_config(self, config: ReviewConfig) -> (prompt: Self)
        ensures
            prompt.settings() == config,
            prompt.prompt_id() == self.prompt_id(),
            prompt.choice_list() == self.choice_list(),
            prompt.driver() == self.driver(),
    {
        ReviewPrompt { config, ..self }
    }
}

/// A review prompt named `id`.
pub fn review<T, I: IntoText>(id: I) -> (prompt: ReviewPrompt<T>)
    ensures
        prompt.prompt_id() == id.text_chars(),
        prompt.choice_list().len() == 0,
        prompt.driver() == DriverKind::Live,
{
    ReviewPrompt::new(id)
}

/// A review prompt with one or more typed actions.
pub struct ReviewPromptWithActions<T, A> {
    id: String,
    choices: Vec<ReviewChoice<T>>,
    config: ReviewConfig,
    interaction: Interaction,
    actions: Vec<ReviewPromptAction<A>>,
}

impl<T, A> ReviewPromptWithActions<T, A> {
    pub closed spec fn prompt_id(&self) -> Seq<char> {
        self.id@
    }

    pub closed spec fn choice_list(&self) -> Seq<ReviewChoice<T>> {
        self.choices@
    }

    pub closed spec fn settings(&self) -> ReviewConfig {
        self.config
    }

    pub closed spec fn driver(&self) -> DriverKind {
        self.interaction.driver_kind()
    }

    pub closed spec fn action_list(&self) -> Seq<ReviewPromptAction<A>> {
        self.actions@
    }

    /// Whether `other` is this prompt with its configuration alone changed.
    pub open spec fn keeps_all_but_config(&self, other: &Self) -> bool {
        &&& other.prompt_id() == self.prompt_id()
        &&& other.choice_list() == self.choice_list()
        &&& other.driver() == self.driver()
        &&& other.action_list() == self.action_list()
    }

    pub fn header<H: IntoText>(self, header: H) -> (prompt: Self)
        ensures
            prompt.settings().list.header matches Some(h) && h@ == header.text_chars(),
            prompt.settings().list.page_size == self.settings().list.page_size,
            prompt.settings().selected == self.settings().selected,
            prompt.settings().show_removed == self.settings().show_removed,
            self.keeps_all_but_config(&prompt),
    {
        ReviewPromptWithActions { config: self.config.header(header), ..self }
    }

    pub fn item<L: IntoText>(self, label: L, value: T, state: ReviewState) -> (prompt: Self)
        ensures
            prompt.choice_list().len() == self.choice_list().len() + 1,
            prompt.choice_list().drop_last() == self.choice_list(),
            prompt.choice_list().last().label@ == label.text_chars(),
            prompt.choice_list().last().value == value,
            prompt.choice_list().last().state == state,
            prompt.prompt_id() == self.prompt_id(),
            prompt.settings() == self.settings(),
            prompt.driver() == self.driver(),
            prompt.action_list() == self.action_list(),
    {
        let mut prompt = self;
        prompt.choices.push(ReviewChoice { label: label.into_text(), value, state });
        proof {
            assert(prompt.choices@.drop_last() =~= self.choices@);
        }
        prompt
    }

    pub fn page_size(self, page_size: usize) -> (prompt: Self)
        ensures
            prompt.settings().list.page_size == page_size,
            prompt.settings().list.wrap == self.settings().list.wrap,
            prompt.settings().selected == self.settings().selected,
            prompt.settings().show_removed == self.settings().show_removed,
            self.keeps_all_but_config(&prompt),
    {
        ReviewPromptWithActions { config: self.config.page_size(page_size), ..self }
    }

    pub fn wrap(self, wrap: bool) -> (prompt: Self)
        ensures
            prompt.settings().list.wrap == wrap,
            prompt.settings().list.page_size == self.settings().list.page_size,
            prompt.settings().selected == self.settings().selected,
            prompt.settings().show_removed == self.settings().show_removed,
            self.keeps_all_but_config(&prompt),
    {
        ReviewPromptWithActions { config: self.config.wrap(wrap), ..self }
    }

    pub fn selected(self, selected: usize) -> (prompt: Self)
        ensures
            prompt.settings().selected == Some(selected),
            prompt.settings().list.page_size == self.settings().list.page_size,
            prompt.settings().show_removed == self.settings().show_removed,
            self.keeps_all_but_config(&prompt),
    {
        ReviewPromptWithActions { config: self.config.selected(selected), ..self }
    }

    pub fn show_removed(self, show_removed: bool) -> (prompt: Self)
        ensures
            prompt.settings().show_removed == show_removed,
            prompt.settings().selected == self.settings().selected,
            prompt.settings().list.page_size == self.settings().list.page_size,
            self.keeps_all_but_config(&prompt),
    {
        ReviewPromptWithActions { config: self.config.show_removed(show_removed), ..self }
    }

    pub fn interaction(self, interaction: Interaction) -> (prompt: Self)
        ensures
            prompt.driver() == interaction.driver_kind(),
            prompt.choice_list() == self.choice_list(),
            prompt.settings() == self.settings(),
            prompt.prompt_id() == self.prompt_id(),
            prompt.action_list() == self.action_list(),
    {
        ReviewPromptWithActions { interaction, ..self }
    }

    /// Add one more typed action.
    pub fn action<H: IntoText>(self, key: char, help: H, value: A) -> (prompt: Self)
        ensures
            prompt.action_list().len() == self.action_list().len() + 1,
            prompt.action_list().drop_last() == self.action_list(),
            prompt.action_list().last().key == key,
            prompt.action_list().last().help@ == help.text_chars(),
            prompt.action_list().last().value == value,
            prompt.prompt_id() == self.prompt_id(),
            prompt.choice_list() == self.choice_list(),
            prompt.settings() == self.settings(),
            prompt.driver() == self.driver(),
    {
        let mut prompt = self;
        prompt.actions.push(ReviewPromptAction { key, help: help.into_text(), value });
        proof {
            assert(prompt.actions@.drop_last() =~= self.actions@);
        }
        prompt
    }

    /// Run the review: refuse reserved and repeated action keys first, then
    /// give back how the review ended with its accepted rows.
    pub fn interact(self) -> (outcome: Result<ReviewOutcome<T, A>, Error>)
        ensures
            match action_keys_problem(action_keys(self.action_list()), self.action_list().len() as int) {
                Some(message) => outcome matches Err(e) && e.error_kind() == ErrorKind::InvalidConfiguration
                    && e.text() == message,
                None => review_ends(self.driver(), outcome),
            },
    {
        validate_review_actions(&self.actions)?;
        let interaction = self.interaction.clone();
        let widget = review_widget(self.id, &self.choices, self.config, &self.actions);
        let bindings: Vec<ActionBinding> = Vec::new();
        let value = interaction.interact(widget, bindings)?;
        resolve_review(value, self.choices, self.actions)
    }
}

impl<T, A> Configurable for ReviewPromptWithActions<T, A> {
    type Config = ReviewConfig;

    fn with_config(self, config: ReviewConfig) -> (prompt: Self)
        ensures
            prompt.settings() == config,
            prompt.prompt_id() == self.prompt_id(),
            prompt.choice_list() == self.choice_list(),
            prompt.driver() == self.driver(),
            prompt.action_list() == self.action_list(),
    {
        ReviewPromptWithActions { config, ..self }
    }
}

} // verus!
