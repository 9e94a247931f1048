//! Transient status lines: a board of running statuses that decides what is
//! animated, what each finished status leaves behind, and when a prompt
//! owns the terminal instead.

use std::collections::BTreeMap;
use std::io;

use vstd::prelude::*;

use crate::bang::error::{Error as PromptError, ErrorKind as PromptErrorKind};
use crate::climax::error::{Error, ErrorKind};
use crate::climax::output::SharedWriter;
use crate::climax::terminal::StatusMode;
use crate::text::IntoText;

verus! {

broadcast use vstd::laws_cmp::group_laws_cmp;

/// What a running status shows and leaves behind.
pub struct StatusEntry {
    /// The message while it runs.
    pub plain: String,
    /// What it leaves when it finishes, if anything in particular.
    pub final_message: Option<String>,
    /// Whether a spinner runs before the message.
    pub spinner: bool,
}

/// The line a finished status leaves: in plain mode its final message or
/// else its message; when animated, its final message if it has one; when
/// silent, nothing.
pub open spec fn removal_line(mode: StatusMode, plain: Seq<char>, final_message: Option<Seq<char>>) -> Option<
    Seq<char>,
> {
    match mode {
        StatusMode::Plain => Some(
            match final_message {
                Some(message) => message,
                None => plain,
            },
        ),
        StatusMode::Live | StatusMode::Auto => final_message,
        StatusMode::Silent => None,
    }
}

pub open spec fn final_text(entry: StatusEntry) -> Option<Seq<char>> {
    match entry.final_message {
        Some(message) => Some(message@),
        None => None,
    }
}

/// The line `entry` leaves when it finishes under `mode`.
pub fn removal_text(mode: StatusMode, entry: &StatusEntry) -> (line: Option<String>)
    ensures
        match removal_line(mode, entry.plain@, final_text(*entry)) {
            Some(l) => line matches Some(s) && s@ == l,
            None => line is None,
        },
{
    match mode {
        StatusMode::Plain => match &entry.final_message {
            Some(message) => Some(message.clone()),
            None => Some(entry.plain.clone()),
        },
        StatusMode::Live | StatusMode::Auto => match &entry.final_message {
            Some(message) => Some(message.clone()),
            None => None,
        },
        StatusMode::Silent => None,
    }
}

/// The number after `id`, wrapping at the end of `u64`.
pub open spec fn next_after(id: u64) -> u64 {
    if id == u64::MAX {
        0
    } else {
        (id + 1) as u64
    }
}

/// The running statuses of a process and the writer their lines go to.
pub struct StatusBoard {
    entries: BTreeMap<u64, StatusEntry>,
    next_id: u64,
    mode: StatusMode,
    fps: u16,
    prompt_active: bool,
    animating: bool,
    writer: SharedWriter,
}

impl StatusBoard {
    pub closed spec fn running(&self) -> Map<u64, StatusEntry> {
        self.entries@
    }

    pub closed spec fn next_identity(&self) -> u64 {
        self.next_id
    }

    pub closed spec fn status_mode(&self) -> StatusMode {
        self.mode
    }

    pub closed spec fn frame_rate(&self) -> u16 {
        self.fps
    }

    pub closed spec fn prompt_owns_terminal(&self) -> bool {
        self.prompt_active
    }

    /// Whether the running statuses are being animated.
    pub closed spec fn is_animating(&self) -> bool {
        self.animating
    }

    /// Whether the board should animate: something runs, the mode is live
    /// and no prompt owns the terminal.
    pub open spec fn wants_animation(&self) -> bool {
        &&& self.running().len() > 0
        &&& self.status_mode() == StatusMode::Live
        &&& !self.prompt_owns_terminal()
    }

    /// An empty board writing to `writer` under `mode`, at fifteen frames a
    /// second.
    pub fn new(writer: SharedWriter, mode: StatusMode) -> (board: Self)
        ensures
            board.running() == Map::<u64, StatusEntry>::empty(),
            board.next_identity() == 0,
            board.status_mode() == mode,
            board.frame_rate() == 15,
            !board.prompt_owns_terminal(),
            !board.is_animating(),
    {
        StatusBoard {
            entries: BTreeMap::new(),
            next_id: 0,
            mode,
            fps: 15,
            prompt_active: false,
            animating: false,
            writer,
        }
    }

    /// Start animating when the board wants to and is not already.
    fn ensure_animation(&mut self)
        ensures
            final(self).is_animating() == (old(self).is_animating() || old(self).wants_animation()),
            final(self).running() == old(self).running(),
            final(self).next_identity() == old(self).next_identity(),
            final(self).status_mode() == old(self).status_mode(),
            final(self).frame_rate() == old(self).frame_rate(),
            final(self).prompt_owns_terminal() == old(self).prompt_owns_terminal(),
    {
        if self.entries.is_empty() {
            return;
        }
        match self.mode {
            StatusMode::Live => {},
            _ => return,
        }
        if self.prompt_active || self.animating {
            return;
        }
        self.animating = true;
    }

    /// Switch to `mode`: any animation stops, and starts again when the new
    /// mode wants it.
    pub fn set_mode(&mut self, mode: StatusMode)
        ensures
            final(self).status_mode() == mode,
            final(self).is_animating() == final(self).wants_animation(),
            final(self).running() == old(self).running(),
            final(self).next_identity() == old(self).next_identity(),
            final(self).frame_rate() == old(self).frame_rate(),
            final(self).prompt_owns_terminal() == old(self).prompt_owns_terminal(),
    {
        self.mode = mode;
        self.animating = false;
        self.ensure_animation();
    }

    /// Add `entry` under the next identity, raising the frame rate to `fps`
    /// if it is higher; the identity is returned.
    pub fn insert(&mut self, entry: StatusEntry, fps: u16) -> (id: u64)
        ensures
            id == old(self).next_identity(),
            final(self).next_identity() == next_after(id),
            final(self).running() == old(self).running().insert(id, entry),
            final(self).frame_rate() == if fps > old(self).frame_rate() {
                fps
            } else {
                old(self).frame_rate()
            },
            final(self).status_mode() == old(self).status_mode(),
            final(self).prompt_owns_terminal() == old(self).prompt_owns_terminal(),
            final(self).is_animating() == (old(self).is_animating() || final(self).wants_animation()),
    {
        let id = self.next_id;
        self.next_id = self.next_id.wrapping_add(1);
        if fps > self.fps {
            self.fps = fps;
        }
        self.entries.insert(id, entry);
        self.ensure_animation();
        id
    }

    /// Write `line` and a newline, then flush, stopping any animation first
    /// and resuming it afterwards.
    fn write_line(&mut self, line: &str) -> (result: Result<(), Error>)
        ensures
            final(self).running() == old(self).running(),
            final(self).next_identity() == old(self).next_identity(),
            final(self).status_mode() == old(self).status_mode(),
            final(self).frame_rate() == old(self).frame_rate(),
            final(self).prompt_owns_terminal() == old(self).prompt_owns_terminal(),
            result is Ok ==> final(self).is_animating() == old(self).wants_animation(),
            result matches Err(e) ==> e.error_kind() == ErrorKind::Output,
    {
        self.animating = false;
        if let Err(error) = self.writer.write_all(line.as_bytes()) {
            return Err(output_error(error));
        }
        if let Err(error) = self.writer.write_all("\n".as_bytes()) {
            return Err(output_error(error));
        }
        if let Err(error) = self.writer.flush() {
            return Err(output_error(error));
        }
        self.ensure_animation();
        Ok(())
    }

    /// Finish the status `id`: it leaves the board, animation stops when
    /// nothing is left, and the line its mode calls for is written. An
    /// identity that is not running changes nothing.
    pub fn remove(&mut self, id: u64) -> (result: Result<(), Error>)
        ensures
            !old(self).running().contains_key(id) ==> result is Ok && final(self).running() == old(self).running()
                && final(self).is_animating() == old(self).is_animating() && final(self).next_identity()
                == old(self).next_identity() && final(self).status_mode() == old(self).status_mode(),
            old(self).running().contains_key(id) ==> {
                &&& final(self).running() == old(self).running().remove(id)
                &&& final(self).next_identity() == old(self).next_identity()
                &&& final(self).status_mode() == old(self).status_mode()
                &&& final(self).prompt_owns_terminal() == old(self).prompt_owns_terminal()
                &&& removal_line(
                    old(self).status_mode(),
                    old(self).running()[id].plain@,
                    final_text(old(self).running()[id]),
                ) is None ==> result is Ok && final(self).is_animating() == (old(self).is_animating()
                    && final(self).running().len() > 0)
                &&& result matches Err(e) ==> e.error_kind() == ErrorKind::Output
            },
    {
        let entry = match self.entries.remove(&id) {
            Some(entry) => entry,
            None => return Ok(()),
        };
        if self.entries.is_empty() {
            self.animating = false;
        }
        match removal_text(self.mode, &entry) {
            Some(line) => self.write_line(line.as_str()),
            None => Ok(()),
        }
    }

    /// Take the terminal for a prompt: a prompt already holding it makes
    /// this one busy; otherwise animation stops until the prompt is done.
    pub fn prompt_guard(&mut self) -> (result: Result<(), PromptError>)
        ensures
            old(self).prompt_owns_terminal() ==> (result matches Err(e) && e.error_kind()
                == PromptErrorKind::InteractionBusy) && *final(self) == *old(self),
            !old(self).prompt_owns_terminal() ==> result is Ok && final(self).prompt_owns_terminal()
                && !final(self).is_animating() && final(self).running() == old(self).running()
                && final(self).status_mode() == old(self).status_mode(),
    {
        if self.prompt_active {
            return Err(PromptError::interaction_busy());
        }
        self.prompt_active = true;
        self.animating = false;
        Ok(())
    }

    /// Take the terminal for the application, as a prompt would.
    pub fn application_guard(&mut self) -> (result: Result<(), Error>)
        ensures
            old(self).prompt_owns_terminal() ==> (result matches Err(e) && e.error_kind()
                == ErrorKind::InteractionBusy) && *final(self) == *old(self),
            !old(self).prompt_owns_terminal() ==> result is Ok && final(self).prompt_owns_terminal()
                && !final(self).is_animating() && final(self).running() == old(self).running()
                && final(self).status_mode() == old(self).status_mode(),
    {
        if self.prompt_active {
            return Err(busy_error());
        }
        self.prompt_active = true;
        self.animating = false;
        Ok(())
    }

    /// Give the terminal back after a prompt: animation resumes when the
    /// board wants it.
    pub fn release_prompt(&mut self)
        ensures
            !final(self).prompt_owns_terminal(),
            final(self).is_animating() == (old(self).is_animating() || final(self).wants_animation()),
            final(self).running() == old(self).running(),
            final(self).status_mode() == old(self).status_mode(),
    {
        self.prompt_active = false;
        self.ensure_animation();
    }

    /// Whether the running statuses are being animated now.
    pub fn animating(&self) -> (animating: bool)
        ensures
            animating == self.is_animating(),
    {
        self.animating
    }

    /// How many statuses are running.
    pub fn running_count(&self) -> (count: usize)
        ensures
            count == self.running().len(),
    {
        self.entries.len()
    }

    /// Another handle on the board's writer.
    pub fn writer(&self) -> (writer: SharedWriter) {
        self.writer.share()
    }
}

/// An output failure.
fn output_error(error: io::Error) -> (converted: Error)
    ensures
        converted.error_kind() == ErrorKind::Output,
{
    Error::with_source(ErrorKind::Output, error)
}

fn busy_error() -> (error: Error)
    ensures
        error.error_kind() == ErrorKind::InteractionBusy,
{
    Error::from_prompt(PromptError::interaction_busy())
}

/// A status to start: its message, whether a spinner runs, the frame rate
/// it asks for and what it leaves behind.
pub struct Status {
    message: String,
    spinner: bool,
    fps: u16,
    final_message: Option<String>,
}

impl Status {
    pub closed spec fn message_text(&self) -> Seq<char> {
        self.message@
    }

    pub closed spec fn spins(&self) -> bool {
        self.spinner
    }

    pub closed spec fn frame_rate(&self) -> u16 {
        self.fps
    }

    pub closed spec fn final_text(&self) -> Option<Seq<char>> {
        match self.final_message {
            Some(message) => Some(message@),
            None => None,
        }
    }

    /// A status showing `message`, without a spinner, at fifteen frames a
    /// second.
    pub fn new<T: IntoText>(message: T) -> (status: Self)
        ensures
            status.message_text() == message.text_chars(),
            !status.spins(),
            status.frame_rate() == 15,
            status.final_text() is None,
    {
        Status { message: message.into_text(), spinner: false, fps: 15, final_message: None }
    }

    pub fn spinner(self) -> (status: Self)
        ensures
            status.spins(),
            status.message_text() == self.message_text(),
            status.frame_rate() == self.frame_rate(),
            status.final_text() == self.final_text(),
    {
        Status { spinner: true, ..self }
    }

    pub fn fps(self, fps: u16) -> (status: Self)
        ensures
            status.frame_rate() == fps,
            status.spins() == self.spins(),
            status.message_text() == self.message_text(),
            status.final_text() == self.final_text(),
    {
        Status { fps, ..self }
    }

    pub fn final_message<T: IntoText>(self, message: T) -> (status: Self)
        ensures
            status.final_text() == Some(message.text_chars()),
            status.spins() == self.spins(),
            status.message_text() == self.message_text(),
            status.frame_rate() == self.frame_rate(),
    {
        Status { final_message: Some(message.into_text()), ..self }
    }

    /// Put the status on `board`.
    pub fn start(self, board: &mut StatusBoard) -> (runtime: StatusRuntime)
        ensures
            runtime.identity() == Some(old(board).next_identity()),
            final(board).running().contains_key(old(board).next_identity()),
            final(board).running()[old(board).next_identity()].plain@ == self.message_text(),
            final(board).running() == old(board).running().insert(
                old(board).next_identity(),
                final(board).running()[old(board).next_identity()],
            ),
    {
        let entry = StatusEntry { plain: self.message, final_message: self.final_message, spinner: self.spinner };
        let id = board.insert(entry, self.fps);
        StatusRuntime { id: Some(id) }
    }

    /// Start the status and finish it at once.
    pub fn finish(self, board: &mut StatusBoard) -> (result: Result<(), Error>)
        ensures
            result matches Err(e) ==> e.error_kind() == ErrorKind::Output,
    {
        let runtime = self.start(board);
        runtime.finish(board)
    }

    /// Run `operation` while the status shows. Its error wins; a failure to
    /// finish the status is added to it as a cleanup failure, or reported
    /// on its own after a success.
    pub fn during<R, F: FnOnce() -> Result<R, Error>>(self, board: &mut StatusBoard, operation: F) -> (result: Result<
        R,
        Error,
    >)
        requires
            operation.requires(()),
        ensures
            result matches Ok(v) ==> operation.ensures((), Ok::<R, Error>(v)),
            result matches Err(e) ==> (exists|o: Error| #[trigger] operation.ensures((), Err::<R, Error>(o))
                && e.error_kind() == o.error_kind()) || e.error_kind() == ErrorKind::Output,
    {
        let status = self.start(board);
        match operation() {
            Ok(value) => match status.finish(board) {
                Ok(()) => Ok(value),
                Err(error) => Err(error),
            },
            Err(error) => match status.finish(board) {
                Ok(()) => Err(error),
                Err(cleanup) => Err(error.with_cleanup(cleanup)),
            },
        }
    }
}

/// A started status, finished by identity.
pub struct StatusRuntime {
    id: Option<u64>,
}

impl StatusRuntime {
    pub closed spec fn identity(&self) -> Option<u64> {
        self.id
    }

    /// Ask for a new frame. The frames are drawn by the renderer, so there
    /// is nothing that can fail here.
    pub fn mark_dirty(&self, board: &StatusBoard) -> (result: Result<(), Error>)
        ensures
            result is Ok,
    {
        Ok(())
    }

    /// Take the status off `board`.
    pub fn finish(self, board: &mut StatusBoard) -> (result: Result<(), Error>)
        ensures
            match self.identity() {
                Some(id) => final(board).running() == old(board).running().remove(id),
                None => final(board).running() == old(board).running(),
            },
            result matches Err(e) ==> e.error_kind() == ErrorKind::Output,
    {
        match self.id {
            Some(id) => board.remove(id),
            None => Ok(()),
        }
    }
}

} // verus!
