//! A session drives one root widget: it hands each event to the widget and
//! keeps what the reactions decide, until the widget submits or cancels.

use vstd::prelude::*;
use vstd::view::View as _;

use crate::bang_core::event::Event;
use crate::bang_core::render::{ListPresentation, Presentation, View, ViewContext};
use crate::bang_core::value::{Value, ValueModel};
use crate::bang_core::widget::{Context, FocusTarget, Reaction, Widget};

verus! {

/// Where a session stands.
#[derive(Debug)]
pub enum SessionStatus {
    Running,
    Submitted(Value),
    Cancelled,
}

impl Clone for SessionStatus {
    fn clone(&self) -> (copy: Self)
        ensures
            copy@ == self@,
    {
        match self {
            SessionStatus::Running => SessionStatus::Running,
            SessionStatus::Submitted(value) => SessionStatus::Submitted(value.clone()),
            SessionStatus::Cancelled => SessionStatus::Cancelled,
        }
    }
}

/// A session status with its value as a model.
pub enum StatusModel {
    Running,
    Submitted(ValueModel),
    Cancelled,
}

impl vstd::view::View for SessionStatus {
    type V = StatusModel;

    open spec fn view(&self) -> StatusModel {
        match self {
            SessionStatus::Running => StatusModel::Running,
            SessionStatus::Submitted(value) => StatusModel::Submitted(value@),
            SessionStatus::Cancelled => StatusModel::Cancelled,
        }
    }
}

/// An ignored event that resized the terminal still changes what is shown.
pub open spec fn resize_reaction_spec(reaction: Reaction, resized: bool) -> Reaction {
    if resized && reaction is Ignored {
        Reaction::Changed
    } else {
        reaction
    }
}

pub fn resize_reaction(reaction: Reaction, resized: bool) -> (settled: Reaction)
    ensures
        settled == resize_reaction_spec(reaction, resized),
{
    if resized {
        match reaction {
            Reaction::Ignored => Reaction::Changed,
            other => other,
        }
    } else {
        reaction
    }
}

/// Whether `event` brings a terminal size other than `size`.
pub open spec fn resizes(size: Option<(u16, u16)>, event: Event) -> bool {
    match event {
        Event::Resize { cols, rows } => size != Some((cols, rows)),
        _ => false,
    }
}

/// One root widget under a session.
pub struct Session {
    root: Box<dyn Widget>,
    focus: Option<FocusTarget>,
    status: SessionStatus,
    view_context: ViewContext,
    presentation: Presentation,
    size: Option<(u16, u16)>,
    dirty: bool,
    /// The views built for the renderer so far, in order.
    frames: Ghost<Seq<View>>,
}

impl Session {
    pub closed spec fn current_status(&self) -> StatusModel {
        self.status@
    }

    pub closed spec fn focused(&self) -> Option<FocusTarget> {
        self.focus
    }

    /// The last terminal size a resize brought.
    pub closed spec fn terminal_size(&self) -> Option<(u16, u16)> {
        self.size
    }

    pub closed spec fn needs_render(&self) -> bool {
        self.dirty
    }

    /// The layout the renderer last reported, handed to the widget with
    /// each event.
    pub closed spec fn layout(&self) -> Seq<ListPresentation> {
        self.presentation.lists@
    }

    /// Whether `view` is how the root widget shows itself in `cx`.
    pub closed spec fn root_shows(&self, cx: ViewContext, view: View) -> bool {
        self.root.shows(cx, view)
    }

    /// The context the session's views are built in.
    pub closed spec fn context(&self) -> ViewContext {
        self.view_context
    }

    /// The views built for the renderer so far, in order.
    pub closed spec fn frames_drawn(&self) -> Seq<View> {
        self.frames@
    }

    /// Whether the root widget answers `event` with `reaction`, with
    /// `layout` the renderer's last report.
    pub closed spec fn root_reacts(&self, event: Event, layout: Seq<ListPresentation>, reaction: Reaction) -> bool {
        self.root.reacts(event, layout, reaction)
    }

    /// A running session over `root`, to be rendered.
    pub fn new<W: Widget + 'static>(root: W) -> (session: Self)
        ensures
            session.current_status() is Running,
            session.focused() is None,
            session.terminal_size() is None,
            session.needs_render(),
    {
        let boxed: Box<dyn Widget> = Box::new(root);
        Session::boxed(boxed)
    }

    /// A running session over a boxed root, to be rendered.
    pub fn boxed(root: Box<dyn Widget>) -> (session: Self)
        ensures
            session.current_status() is Running,
            session.focused() is None,
            session.terminal_size() is None,
            session.needs_render(),
    {
        Session {
            root,
            focus: None,
            status: SessionStatus::Running,
            view_context: ViewContext::default(),
            presentation: Presentation { lists: Vec::new() },
            size: None,
            dirty: true,
            frames: Ghost(Seq::empty()),
        }
    }

    /// Hand `event` to the root widget while the session runs. A focus
    /// request wins over the widget's reaction; an ignored event that
    /// resized the terminal counts as a change. A submit or cancel ends the
    /// session, and every reaction but an ignored one asks for a render.
    pub fn handle(&mut self, event: Event) -> (reaction: Reaction)
        ensures
            final(self).layout() == old(self).layout(),
            !(old(self).current_status() is Running) ==> reaction is Ignored && final(self).current_status()
                == old(self).current_status() && final(self).needs_render() == old(self).needs_render()
                && final(self).focused() == old(self).focused(),
            old(self).current_status() is Running ==> {
                &&& exists|handled: Reaction| #[trigger] old(self).root_reacts(event, old(self).layout(), handled)
                    && (reaction is Focus || reaction == resize_reaction_spec(
                    handled,
                    resizes(old(self).terminal_size(), event),
                ))
                &&& resizes(old(self).terminal_size(), event) ==> !(reaction is Ignored)
                &&& match event {
                    Event::Resize { cols, rows } => final(self).terminal_size() == Some((cols, rows)),
                    _ => final(self).terminal_size() == old(self).terminal_size(),
                }
                &&& match reaction {
                    Reaction::Ignored => final(self).current_status() is Running && final(self).needs_render()
                        == old(self).needs_render() && final(self).focused() == old(self).focused(),
                    Reaction::Changed => final(self).current_status() is Running && final(self).needs_render()
                        && final(self).focused() == old(self).focused(),
                    Reaction::Submit(value) => final(self).current_status() == StatusModel::Submitted(value@)
                        && final(self).needs_render() && final(self).focused() == old(self).focused(),
                    Reaction::Cancel => final(self).current_status() is Cancelled && final(self).needs_render()
                        && final(self).focused() == old(self).focused(),
                    Reaction::Focus(target) => final(self).current_status() is Running && final(self).needs_render()
                        && final(self).focused() == Some(target),
                }
            },
    {
        match self.status {
            SessionStatus::Running => {},
            _ => return Reaction::Ignored,
        }
        let resized = record_resize(&mut self.size, &event);
        let mut presentation = Presentation { lists: Vec::new() };
        std::mem::swap(&mut presentation, &mut self.presentation);
        let mut context = Context::with_presentation(presentation);
        let ghost root = self.root;
        let handled = self.root.handle(event, &mut context);
        assert(root.reacts(event, old(self).layout(), handled));
        assert(old(self).root_reacts(event, old(self).layout(), handled));
        let reaction = match context.take_focus() {
            Some(target) => Reaction::Focus(target),
            None => resize_reaction(handled, resized),
        };
        self.presentation = context.into_presentation();
        assert(reaction is Focus || reaction == resize_reaction_spec(handled, resizes(old(self).terminal_size(), event)));
        match &reaction {
            Reaction::Ignored => {},
            Reaction::Changed => {
                self.dirty = true;
            },
            Reaction::Submit(value) => {
                self.status = SessionStatus::Submitted(value.clone());
                self.dirty = true;
            },
            Reaction::Cancel => {
                self.status = SessionStatus::Cancelled;
                self.dirty = true;
            },
            Reaction::Focus(target) => {
                self.focus = Some(target.clone());
                self.dirty = true;
            },
        }
        reaction
    }

    /// How the root widget shows itself now.
    pub fn view(&self) -> (view: View)
        ensures
            self.root_shows(self.context(), view),
    {
        self.root.view(&self.view_context)
    }

    /// The root widget's view, built for the renderer and noted as drawn.
    pub fn frame(&mut self) -> (view: View)
        ensures
            old(self).root_shows(old(self).context(), view),
            final(self).frames_drawn() == old(self).frames_drawn().push(view),
            final(self).current_status() == old(self).current_status(),
            final(self).focused() == old(self).focused(),
            final(self).terminal_size() == old(self).terminal_size(),
            final(self).needs_render() == old(self).needs_render(),
            final(self).layout() == old(self).layout(),
    {
        let view = self.root.view(&self.view_context);
        proof {
            self.frames@ = self.frames@.push(view);
        }
        view
    }

    pub fn view_context(&self) -> &ViewContext {
        &self.view_context
    }

    pub fn status(&self) -> (status: &SessionStatus)
        ensures
            status@ == self.current_status(),
    {
        &self.status
    }

    pub fn focus(&self) -> (focus: Option<&FocusTarget>)
        ensures
            match focus {
                Some(target) => self.focused() == Some(*target),
                None => self.focused() is None,
            },
    {
        match &self.focus {
            Some(target) => Some(target),
            None => None,
        }
    }

    pub fn is_dirty(&self) -> (dirty: bool)
        ensures
            dirty == self.needs_render(),
    {
        self.dirty
    }

    /// Keep what the renderer reported of the last layout, for the widget
    /// to navigate by.
    pub fn set_presentation(&mut self, presentation: Presentation)
        ensures
            final(self).layout() == presentation.lists@,
            final(self).current_status() == old(self).current_status(),
            final(self).focused() == old(self).focused(),
            final(self).terminal_size() == old(self).terminal_size(),
            final(self).needs_render() == old(self).needs_render(),
            final(self).frames_drawn() == old(self).frames_drawn(),
    {
        self.presentation = presentation;
    }

    pub fn clear_dirty(&mut self)
        ensures
            !final(self).needs_render(),
            final(self).current_status() == old(self).current_status(),
            final(self).focused() == old(self).focused(),
            final(self).terminal_size() == old(self).terminal_size(),
            final(self).layout() == old(self).layout(),
            final(self).frames_drawn() == old(self).frames_drawn(),
    {
        self.dirty = false;
    }

}

/// Keep the size a resize brings in `size`; whether it differs from the
/// last one.
fn record_resize(size: &mut Option<(u16, u16)>, event: &Event) -> (resized: bool)
    ensures
        resized == resizes(*old(size), *event),
        match *event {
            Event::Resize { cols, rows } => *final(size) == Some((cols, rows)),
            _ => *final(size) == *old(size),
        },
{
    let (cols, rows) = match event {
        Event::Resize { cols, rows } => (*cols, *rows),
        _ => return false,
    };
    let same = match *size {
        Some((width, height)) => width == cols && height == rows,
        None => false,
    };
    *size = Some((cols, rows));
    !same
}

} // verus!
