//! Drivers for typed prompt interactions: the live terminal, a disabled
//! driver, deterministic scripts, or a runner the application supplies.

use std::cell::RefCell;
use std::collections::VecDeque;
use std::rc::Rc;

use vstd::prelude::*;
use vstd::view::View as _;

use crate::bang::advanced::{replay_events, replay_outcome};
use crate::bang::error::{Error, ErrorKind};
use crate::bang_core::action::{ActionBinding, ActionLayer};
use crate::bang_core::event::Event;
use crate::bang_core::ids::WidgetId;
use crate::bang_core::render::{ListPresentation, View, ViewContext};
use crate::bang_core::value::{Value, ValueModel};
use crate::bang_core::widget::{Context, Reaction, Widget};

verus! {

#[verifier::external_type_specification]
#[verifier::external_body]
#[verifier::reject_recursive_types(T)]
pub struct ExRefCell<T: ?Sized>(RefCell<T>);

/// `RefCell::new`.
#[verifier::external_body]
fn new_cell(scripts: VecDeque<Vec<Event>>) -> (cell: RefCell<VecDeque<Vec<Event>>>) {
    RefCell::new(scripts)
}

/// `VecDeque::pop_front` under `RefCell::try_borrow_mut`, or `Err` when the
/// cell is already borrowed. Which script comes out depends on what earlier
/// prompts took from the shared queue, so nothing is stated of it.
#[verifier::external_body]
fn take_front(cell: &RefCell<VecDeque<Vec<Event>>>) -> (script: Result<Option<Vec<Event>>, ()>) {
    match cell.try_borrow_mut() {
        Ok(mut scripts) => Ok(scripts.pop_front()),
        Err(_busy) => Err(()),
    }
}

/// Event scripts shared by every clone of a scripted interaction, one
/// script per prompt, taken from the front.
pub struct ScriptQueue {
    scripts: Rc<RefCell<VecDeque<Vec<Event>>>>,
}

impl ScriptQueue {
    /// A queue holding `scripts` in order.
    pub fn new(scripts: Vec<Vec<Event>>) -> (queue: Self) {
        let mut queue: VecDeque<Vec<Event>> = VecDeque::new();
        let mut remaining = scripts;
        while remaining.len() > 0
            decreases remaining@.len(),
        {
            let script = remaining.remove(0);
            queue.push_back(script);
        }
        ScriptQueue { scripts: Rc::new(new_cell(queue)) }
    }

    /// Another handle on the same queue.
    pub fn share(&self) -> (queue: Self) {
        ScriptQueue { scripts: Rc::clone(&self.scripts) }
    }

    fn next_script(&self) -> (script: Result<Option<Vec<Event>>, ()>) {
        take_front(&self.scripts)
    }
}

impl Clone for ScriptQueue {
    fn clone(&self) -> (queue: Self) {
        self.share()
    }
}

/// A type-erased widget handed to an interaction runner.
pub struct InteractionWidget {
    widget: Box<dyn Widget>,
}

impl InteractionWidget {
    pub(crate) fn new(widget: Box<dyn Widget>) -> (wrapped: Self) {
        InteractionWidget { widget }
    }
}

impl Widget for InteractionWidget {
    closed spec fn identity(&self) -> Seq<char> {
        self.widget.identity()
    }

    closed spec fn held_value(&self) -> Option<ValueModel> {
        self.widget.held_value()
    }

    closed spec fn reacts(&self, event: Event, layout: Seq<ListPresentation>, reaction: Reaction) -> bool {
        self.widget.reacts(event, layout, reaction)
    }

    closed spec fn holds_after(&self, event: Event, layout: Seq<ListPresentation>, value: Option<ValueModel>) -> bool {
        self.widget.holds_after(event, layout, value)
    }

    fn id(&self) -> (id: WidgetId) {
        self.widget.id()
    }

    fn handle(&mut self, event: Event, cx: &mut Context) -> Reaction {
        self.widget.handle(event, cx)
    }

    closed spec fn shows(&self, cx: ViewContext, view: View) -> bool {
        self.widget.shows(cx, view)
    }

    fn view(&self, cx: &ViewContext) -> View {
        self.widget.view(cx)
    }

    fn current_value(&self) -> (value: Option<Value>) {
        self.widget.current_value()
    }
}

/// A session runner an application supplies for its prompts.
pub trait InteractionRunner {
    fn run(&self, widget: InteractionWidget) -> Result<Value, Error>;
}

/// How an interaction runs its prompts.
pub enum Driver {
    /// The process terminal, when it supports an interactive session.
    Live,
    /// The process terminal, without capability detection.
    Forced,
    /// No terminal at all.
    Disabled,
    /// One event script per prompt.
    Scripted(ScriptQueue),
    /// A runner the application supplies.
    Runner(Rc<Box<dyn InteractionRunner>>),
}

impl Clone for Driver {
    fn clone(&self) -> (copy: Self)
        ensures
            copy.kind() == self.kind(),
    {
        match self {
            Driver::Live => Driver::Live,
            Driver::Forced => Driver::Forced,
            Driver::Disabled => Driver::Disabled,
            Driver::Scripted(queue) => Driver::Scripted(queue.clone()),
            Driver::Runner(runner) => Driver::Runner(Rc::clone(runner)),
        }
    }
}

/// The kind of a driver.
#[derive(Clone, Copy, Debug, PartialEq, Eq, Structural)]
pub enum DriverKind {
    Live,
    Forced,
    Disabled,
    Scripted,
    Runner,
}

impl Driver {
    pub open spec fn kind(&self) -> DriverKind {
        match self {
            Driver::Live => DriverKind::Live,
            Driver::Forced => DriverKind::Forced,
            Driver::Disabled => DriverKind::Disabled,
            Driver::Scripted(_) => DriverKind::Scripted,
            Driver::Runner(_) => DriverKind::Runner,
        }
    }
}

/// A cloneable driver for typed prompt interactions. Clones of a scripted
/// interaction share its scripts.
pub struct Interaction {
    driver: Driver,
}

impl Clone for Interaction {
    fn clone(&self) -> (copy: Self)
        ensures
            copy.driver_kind() == self.driver_kind(),
    {
        Interaction { driver: self.driver.clone() }
    }
}

impl Interaction {
    pub closed spec fn driver_kind(&self) -> DriverKind {
        self.driver.kind()
    }

    pub fn driver_kind_of(&self) -> (kind: DriverKind)
        ensures
            kind == self.driver_kind(),
    {
        match &self.driver {
            Driver::Live => DriverKind::Live,
            Driver::Forced => DriverKind::Forced,
            Driver::Disabled => DriverKind::Disabled,
            Driver::Scripted(_) => DriverKind::Scripted,
            Driver::Runner(_) => DriverKind::Runner,
        }
    }

    /// Use the process terminal when it supports an interactive session.
    pub fn live() -> (interaction: Self)
        ensures
            interaction.driver_kind() == DriverKind::Live,
    {
        Interaction { driver: Driver::Live }
    }

    /// Attempt a live session regardless of terminal capability detection.
    pub fn forced() -> (interaction: Self)
        ensures
            interaction.driver_kind() == DriverKind::Forced,
    {
        Interaction { driver: Driver::Forced }
    }

    /// Reject prompt interaction without touching the terminal.
    pub fn disabled() -> (interaction: Self)
        ensures
            interaction.driver_kind() == DriverKind::Disabled,
    {
        Interaction { driver: Driver::Disabled }
    }

    /// Run each prompt through `runner`.
    pub fn from_runner<R: InteractionRunner + 'static>(runner: R) -> (interaction: Self)
        ensures
            interaction.driver_kind() == DriverKind::Runner,
    {
        let boxed: Box<dyn InteractionRunner> = Box::new(runner);
        Interaction { driver: Driver::Runner(Rc::new(boxed)) }
    }

    /// Run each prompt on the next of `scripts`.
    pub fn scripted(scripts: Vec<Vec<Event>>) -> (interaction: Self)
        ensures
            interaction.driver_kind() == DriverKind::Scripted,
    {
        Interaction { driver: Driver::Scripted(ScriptQueue::new(scripts)) }
    }

    /// Run `widget` under `actions` with this driver.
    ///
    /// A disabled interaction fails before touching the terminal. A scripted
    /// one replays its next script, and input ends when none is left. The
    /// live terminal runner comes with the renderer crate; where that crate
    /// is not part of the build, a live interaction reports that interaction
    /// is unavailable.
    pub fn interact<W: Widget + 'static>(&self, widget: W, actions: Vec<ActionBinding>) -> (result: Result<
        Value,
        Error,
    >)
        ensures
            match self.driver_kind() {
                DriverKind::Live | DriverKind::Forced | DriverKind::Disabled => result matches Err(e)
                    && e.error_kind() == ErrorKind::InteractionUnavailable,
                DriverKind::Scripted => replay_outcome(result) is Some || (result matches Err(e) && (e.error_kind()
                    == ErrorKind::InteractionBusy)),
                DriverKind::Runner => true,
            },
    {
        let layered = ActionLayer::new(widget).with_actions(actions);
        match &self.driver {
            Driver::Live | Driver::Forced | Driver::Disabled => Err(Error::interaction_unavailable()),
            Driver::Scripted(queue) => match queue.next_script() {
                Err(()) => Err(Error::interaction_busy()),
                Ok(None) => Err(Error::input_ended()),
                Ok(Some(events)) => {
                    let boxed: Box<dyn Widget> = Box::new(layered);
                    replay_events(InteractionWidget::new(boxed), events)
                },
            },
            Driver::Runner(runner) => {
                let boxed: Box<dyn Widget> = Box::new(layered);
                runner.run(InteractionWidget::new(boxed))
            },
        }
    }
}

impl Default for Interaction {
    fn default() -> (interaction: Self)
        ensures
            interaction.driver_kind() == DriverKind::Live,
    {
        Interaction::live()
    }
}

/// Build a deterministic interaction driver from one event sequence per
/// prompt.
pub fn scripted_interaction(scripts: Vec<Vec<Event>>) -> (interaction: Interaction)
    ensures
        interaction.driver_kind() == DriverKind::Scripted,
{
    Interaction::scripted(scripts)
}

/// Build an interaction driver around a custom session runner.
pub fn interaction_from_runner<R: InteractionRunner + 'static>(runner: R) -> (interaction: Interaction)
    ensures
        interaction.driver_kind() == DriverKind::Runner,
{
    Interaction::from_runner(runner)
}

/// Run a custom widget with the live terminal driver.
pub fn interact_widget<W: Widget + 'static>(widget: W, actions: Vec<ActionBinding>) -> (result: Result<
    Value,
    Error,
>)
    ensures
        result matches Err(e) && e.error_kind() == ErrorKind::InteractionUnavailable,
{
    Interaction::live().interact(widget, actions)
}

} // verus!
