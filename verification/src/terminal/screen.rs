//! Screen modes negotiated on one writer (alternate screen, bracketed paste,
//! hidden cursor) and restored in reverse, even after a failed write.

use std::io;
use std::io::Write;
use vstd::prelude::*;

use crate::io_error::{io_error_kind, io_error_new, io_error_text};
use crate::text::{join_with, push_str};

verus! {

/// Whether a session draws inline or on the alternate screen.
#[derive(Clone, Copy, Debug, Eq, PartialEq, Structural)]
pub enum ScreenKind {
    Inline,
    Alternate,
}

impl Default for ScreenKind {
    fn default() -> (kind: Self)
        ensures
            kind == ScreenKind::Inline,
    {
        ScreenKind::Inline
    }
}

/// Whether the cursor stays visible while a session runs.
#[derive(Clone, Copy, Debug, Eq, PartialEq, Structural)]
pub enum CursorPolicy {
    Preserve,
    Hide,
}

impl Default for CursorPolicy {
    fn default() -> (policy: Self)
        ensures
            policy == CursorPolicy::Hide,
    {
        CursorPolicy::Hide
    }
}

/// The modes a screen guard negotiates.
#[derive(Clone, Copy, Debug, Eq, PartialEq, Structural)]
pub struct ScreenOptions {
    kind: ScreenKind,
    cursor: CursorPolicy,
    bracketed_paste: bool,
    clear_inline_on_leave: bool,
}

impl ScreenOptions {
    pub closed spec fn screen_kind(self) -> ScreenKind {
        self.kind
    }

    pub closed spec fn cursor_policy(self) -> CursorPolicy {
        self.cursor
    }

    pub closed spec fn pastes_bracketed(self) -> bool {
        self.bracketed_paste
    }

    pub closed spec fn clears_inline(self) -> bool {
        self.clear_inline_on_leave
    }

    /// Inline, with a hidden cursor and bracketed paste, cleared on leave.
    pub fn inline() -> (options: Self)
        ensures
            options.screen_kind() == ScreenKind::Inline,
            options.cursor_policy() == CursorPolicy::Hide,
            options.pastes_bracketed(),
            options.clears_inline(),
    {
        ScreenOptions {
            kind: ScreenKind::Inline,
            cursor: CursorPolicy::Hide,
            bracketed_paste: true,
            clear_inline_on_leave: true,
        }
    }

    /// The alternate screen with a hidden cursor and no bracketed paste.
    pub fn full_screen() -> (options: Self)
        ensures
            options.screen_kind() == ScreenKind::Alternate,
            options.cursor_policy() == CursorPolicy::Hide,
            !options.pastes_bracketed(),
            !options.clears_inline(),
    {
        ScreenOptions {
            kind: ScreenKind::Alternate,
            cursor: CursorPolicy::Hide,
            bracketed_paste: false,
            clear_inline_on_leave: false,
        }
    }

    pub fn cursor(self, cursor: CursorPolicy) -> (options: Self)
        ensures
            options.cursor_policy() == cursor,
            options.screen_kind() == self.screen_kind() && options.pastes_bracketed() == self.pastes_bracketed() && options.clears_inline() == self.clears_inline(),
    {
        ScreenOptions { cursor, ..self }
    }

    pub fn bracketed_paste(self, enabled: bool) -> (options: Self)
        ensures
            options.pastes_bracketed() == enabled,
            options.screen_kind() == self.screen_kind() && options.cursor_policy() == self.cursor_policy() && options.clears_inline() == self.clears_inline(),
    {
        ScreenOptions { bracketed_paste: enabled, ..self }
    }

    pub fn clear_inline_on_leave(self, clear: bool) -> (options: Self)
        ensures
            options.clears_inline() == clear,
            options.screen_kind() == self.screen_kind() && options.cursor_policy() == self.cursor_policy() && options.pastes_bracketed() == self.pastes_bracketed(),
    {
        ScreenOptions { clear_inline_on_leave: clear, ..self }
    }
}

impl Default for ScreenOptions {
    fn default() -> (options: Self)
        ensures
            options.screen_kind() == ScreenKind::Inline,
            options.cursor_policy() == CursorPolicy::Hide,
            options.pastes_bracketed(),
            options.clears_inline(),
    {
        ScreenOptions::inline()
    }
}

/// The marks a screen guard keeps: whether it is active, which modes it may
/// have to restore, and whether a control sequence may have been cut short.
#[derive(Clone, Copy, Debug, Eq, PartialEq, Structural)]
pub struct ScreenState {
    pub active: bool,
    pub alternate: bool,
    pub paste: bool,
    pub cursor: bool,
    pub uncertain: bool,
}

/// `ESC [ ? 1049 h`: enter the alternate screen.
pub open spec fn enter_alternate_bytes() -> Seq<u8> {
    seq![0x1b, 0x5b, 0x3f, 0x31, 0x30, 0x34, 0x39, 0x68]
}

/// `ESC [ ? 1049 l`: leave the alternate screen.
pub open spec fn leave_alternate_bytes() -> Seq<u8> {
    seq![0x1b, 0x5b, 0x3f, 0x31, 0x30, 0x34, 0x39, 0x6c]
}

/// `ESC [ ? 2004 h`: enable bracketed paste.
pub open spec fn enable_paste_bytes() -> Seq<u8> {
    seq![0x1b, 0x5b, 0x3f, 0x32, 0x30, 0x30, 0x34, 0x68]
}

/// `ESC [ ? 2004 l`: disable bracketed paste.
pub open spec fn disable_paste_bytes() -> Seq<u8> {
    seq![0x1b, 0x5b, 0x3f, 0x32, 0x30, 0x30, 0x34, 0x6c]
}

/// `ESC [ ? 25 l`: hide the cursor.
pub open spec fn hide_cursor_bytes() -> Seq<u8> {
    seq![0x1b, 0x5b, 0x3f, 0x32, 0x35, 0x6c]
}

/// `ESC [ ? 25 h`: show the cursor.
pub open spec fn show_cursor_bytes() -> Seq<u8> {
    seq![0x1b, 0x5b, 0x3f, 0x32, 0x35, 0x68]
}

/// `CR ESC [ 2 K`: clear the current line.
pub open spec fn clear_inline_bytes() -> Seq<u8> {
    seq![0x0d, 0x1b, 0x5b, 0x32, 0x4b]
}

/// `CAN`: cancel a control sequence written in part.
pub open spec fn cancel_bytes() -> Seq<u8> {
    seq![0x18]
}

fn enter_alternate() -> (bytes: Vec<u8>)
    ensures
        bytes@ == enter_alternate_bytes(),
{
    let bytes = vec![0x1bu8, 0x5b, 0x3f, 0x31, 0x30, 0x34, 0x39, 0x68];
    assert(bytes@ =~= enter_alternate_bytes());
    bytes
}

fn leave_alternate() -> (bytes: Vec<u8>)
    ensures
        bytes@ == leave_alternate_bytes(),
{
    let bytes = vec![0x1bu8, 0x5b, 0x3f, 0x31, 0x30, 0x34, 0x39, 0x6c];
    assert(bytes@ =~= leave_alternate_bytes());
    bytes
}

fn enable_paste() -> (bytes: Vec<u8>)
    ensures
        bytes@ == enable_paste_bytes(),
{
    let bytes = vec![0x1bu8, 0x5b, 0x3f, 0x32, 0x30, 0x30, 0x34, 0x68];
    assert(bytes@ =~= enable_paste_bytes());
    bytes
}

fn disable_paste() -> (bytes: Vec<u8>)
    ensures
        bytes@ == disable_paste_bytes(),
{
    let bytes = vec![0x1bu8, 0x5b, 0x3f, 0x32, 0x30, 0x30, 0x34, 0x6c];
    assert(bytes@ =~= disable_paste_bytes());
    bytes
}

fn hide_cursor() -> (bytes: Vec<u8>)
    ensures
        bytes@ == hide_cursor_bytes(),
{
    let bytes = vec![0x1bu8, 0x5b, 0x3f, 0x32, 0x35, 0x6c];
    assert(bytes@ =~= hide_cursor_bytes());
    bytes
}

fn show_cursor() -> (bytes: Vec<u8>)
    ensures
        bytes@ == show_cursor_bytes(),
{
    let bytes = vec![0x1bu8, 0x5b, 0x3f, 0x32, 0x35, 0x68];
    assert(bytes@ =~= show_cursor_bytes());
    bytes
}

fn clear_inline() -> (bytes: Vec<u8>)
    ensures
        bytes@ == clear_inline_bytes(),
{
    let bytes = vec![0x0du8, 0x1b, 0x5b, 0x32, 0x4b];
    assert(bytes@ =~= clear_inline_bytes());
    bytes
}

fn cancel_sequence() -> (bytes: Vec<u8>)
    ensures
        bytes@ == cancel_bytes(),
{
    let bytes = vec![0x18u8];
    assert(bytes@ =~= cancel_bytes());
    bytes
}

/// `Write::write_all`: what it did is known only by its result.
#[verifier::external_body]
fn write_all_to<W: Write + ?Sized>(output: &mut W, bytes: &[u8]) -> (result: io::Result<()>) {
    output.write_all(bytes)
}

/// `Write::flush`.
#[verifier::external_body]
fn flush_output<W: Write + ?Sized>(output: &mut W) -> (result: io::Result<()>) {
    output.flush()
}

/// Several failures seen while entering or restoring screen modes.
#[derive(Debug)]
pub struct ScreenFailures {
    failures: Vec<io::Error>,
}

impl ScreenFailures {
    pub closed spec fn errors(&self) -> Seq<io::Error> {
        self.failures@
    }

    pub fn failures(&self) -> (failures: &[io::Error])
        ensures
            failures@ == self.errors(),
    {
        self.failures.as_slice()
    }

    /// The failures' messages joined by `"; "`.
    pub fn message(&self) -> (text: String)
        ensures
            exists|parts: Seq<Seq<char>>| parts.len() == self.errors().len() && text@ == join_with(parts, "; "@),
    {
        join_error_texts(&self.failures)
    }
}

/// The messages of errors joined by `"; "`.
pub fn join_error_texts(failures: &Vec<io::Error>) -> (text: String)
    ensures
        exists|parts: Seq<Seq<char>>| parts.len() == failures@.len() && text@ == join_with(parts, "; "@),
{
    let mut text = String::new();
    let ghost mut parts: Seq<Seq<char>> = Seq::empty();
    let mut i: usize = 0;
    while i < failures.len()
        invariant
            i <= failures@.len(),
            parts.len() == i,
            text@ == join_with(parts, "; "@),
        decreases failures@.len() - i,
    {
        let ghost before = text@;
        if i > 0 {
            push_str(&mut text, "; ");
        }
        let part = io_error_text(&failures[i]);
        push_str(&mut text, part.as_str());
        proof {
            let next = parts.push(part@);
            assert(next.drop_last() =~= parts);
            if i == 0 {
                assert(text@ =~= part@);
            } else {
                assert(text@ =~= before + "; "@ + part@);
            }
            parts = next;
        }
        i += 1;
    }
    text
}

/// The marks of a guard that entered every mode of `options`.
pub open spec fn entered_state(options: ScreenOptions) -> ScreenState {
    ScreenState {
        active: true,
        alternate: options.screen_kind() == ScreenKind::Alternate,
        paste: options.pastes_bracketed(),
        cursor: options.cursor_policy() == CursorPolicy::Hide,
        uncertain: false,
    }
}

/// The marks of a guard with nothing left to restore.
pub open spec fn released_state() -> ScreenState {
    ScreenState { active: false, alternate: false, paste: false, cursor: false, uncertain: false }
}

/// The control sequences that enter the modes of `options`, in order.
pub open spec fn entry_sequences(options: ScreenOptions) -> Seq<Seq<u8>> {
    (if options.screen_kind() == ScreenKind::Alternate {
        seq![enter_alternate_bytes()]
    } else {
        Seq::empty()
    }) + (if options.pastes_bracketed() {
        seq![enable_paste_bytes()]
    } else {
        Seq::empty()
    }) + (if options.cursor_policy() == CursorPolicy::Hide {
        seq![hide_cursor_bytes()]
    } else {
        Seq::empty()
    })
}

/// The control sequences that restore the modes marked in `state` when every
/// write succeeds: the cancel byte when a sequence may have been cut, a clear
/// of the inline line when asked, then the modes in reverse order of entry.
pub open spec fn restore_sequences(options: ScreenOptions, state: ScreenState) -> Seq<Seq<u8>> {
    (if state.uncertain {
        seq![cancel_bytes()]
    } else {
        Seq::empty()
    }) + (if options.screen_kind() == ScreenKind::Inline && options.clears_inline() {
        seq![clear_inline_bytes()]
    } else {
        Seq::empty()
    }) + (if state.cursor {
        seq![show_cursor_bytes()]
    } else {
        Seq::empty()
    }) + (if state.paste {
        seq![disable_paste_bytes()]
    } else {
        Seq::empty()
    }) + (if state.alternate {
        seq![leave_alternate_bytes()]
    } else {
        Seq::empty()
    })
}

/// How the writes of one restore pass went, one flag for each write it may
/// try: the cancel byte, the clear of the inline line, and for each mode the
/// cancel byte before it and its own sequence; then the flush.
pub struct RestoreOutcomes {
    pub cancel: bool,
    pub clear: bool,
    pub cursor_cancel: bool,
    pub cursor: bool,
    pub paste_cancel: bool,
    pub paste: bool,
    pub alternate_cancel: bool,
    pub alternate: bool,
    pub flush: bool,
}

/// The cancel byte, written when a sequence may have been cut: the
/// sequences tried, the marks after it, and the failures.
#[verifier::opaque]
pub open spec fn cancel_step(state: ScreenState, ok: bool) -> (Seq<Seq<u8>>, ScreenState, nat) {
    if !state.uncertain {
        (Seq::empty(), state, 0)
    } else if ok {
        (seq![cancel_bytes()], ScreenState { uncertain: false, ..state }, 0)
    } else {
        (seq![cancel_bytes()], state, 1)
    }
}

/// The restore of one marked mode: the cancel byte first when needed, and
/// nothing more while the terminal's state is uncertain; a failed write
/// leaves the mode marked and the state uncertain.
#[verifier::opaque]
pub open spec fn disable_step(
    state: ScreenState,
    mode: ScreenMode,
    sequence: Seq<u8>,
    cancel_ok: bool,
    ok: bool,
) -> (Seq<Seq<u8>>, ScreenState, nat) {
    if !mode_marked(state, mode) {
        (Seq::empty(), state, 0)
    } else {
        let (cancelled, after, failed) = cancel_step(state, cancel_ok);
        if after.uncertain {
            (cancelled, after, failed)
        } else if ok {
            (cancelled.push(sequence), without_mode(after, mode), failed)
        } else {
            (cancelled.push(sequence), ScreenState { uncertain: true, ..after }, failed + 1)
        }
    }
}

/// Outcomes with every write gone through.
pub open spec fn arbitrary_outcomes() -> RestoreOutcomes {
    RestoreOutcomes {
        cancel: true,
        clear: true,
        cursor_cancel: true,
        cursor: true,
        paste_cancel: true,
        paste: true,
        alternate_cancel: true,
        alternate: true,
        flush: true,
    }
}

/// The first writes of a restore pass: the cancel byte when needed, then
/// the clear of the inline line when asked.
pub open spec fn prefix_run(options: ScreenOptions, state: ScreenState, outcomes: RestoreOutcomes) -> (
    Seq<Seq<u8>>,
    ScreenState,
    nat,
) {
    let (w0, s0, f0) = cancel_step(state, outcomes.cancel);
    let clears = options.screen_kind() == ScreenKind::Inline && options.clears_inline();
    (
        if clears { w0.push(clear_inline_bytes()) } else { w0 },
        s0,
        if clears && !outcomes.clear { f0 + 1 } else { f0 },
    )
}

/// The modes restored in reverse order of entry: the cursor, bracketed
/// paste, then the alternate screen.
pub open spec fn modes_run(state: ScreenState, outcomes: RestoreOutcomes) -> (Seq<Seq<u8>>, ScreenState, nat) {
    let (w2, s2, f2) = disable_step(state, ScreenMode::Cursor, show_cursor_bytes(), outcomes.cursor_cancel, outcomes.cursor);
    let (w3, s3, f3) = disable_step(s2, ScreenMode::Paste, disable_paste_bytes(), outcomes.paste_cancel, outcomes.paste);
    let (w4, s4, f4) = disable_step(
        s3,
        ScreenMode::Alternate,
        leave_alternate_bytes(),
        outcomes.alternate_cancel,
        outcomes.alternate,
    );
    (w2 + w3 + w4, s4, f2 + f3 + f4)
}

/// One restore pass over an active guard when its writes go as `outcomes`
/// says: every sequence it tries, in order, the marks it leaves, and
/// whether any write failed. Every restoration is tried even after a
/// failure; without a failure the guard is released.
pub open spec fn restore_run(options: ScreenOptions, state: ScreenState, outcomes: RestoreOutcomes) -> (
    Seq<Seq<u8>>,
    ScreenState,
    bool,
) {
    let (wp, sp, fp) = prefix_run(options, state, outcomes);
    let (wm, sm, fm) = modes_run(sp, outcomes);
    let failed = fp + fm + (if outcomes.flush { 0nat } else { 1nat }) > 0;
    (wp + wm, if failed { sm } else { ScreenState { active: false, uncertain: false, ..sm } }, failed)
}

/// The marks one restore pass leaves before the guard is released.
pub open spec fn restore_pass_marks(options: ScreenOptions, state: ScreenState, outcomes: RestoreOutcomes) -> ScreenState {
    modes_run(prefix_run(options, state, outcomes).1, outcomes).1
}

/// A restore pass leaves the guard as active as it was; only a clean pass
/// releases it.
proof fn lemma_pass_keeps_active(options: ScreenOptions, state: ScreenState, outcomes: RestoreOutcomes)
    ensures
        restore_pass_marks(options, state, outcomes).active == state.active,
{
    reveal(cancel_step);
    reveal(disable_step);
}

/// A pass in which no write failed tries exactly the restore sequences and
/// clears every mark.
proof fn lemma_clean_run(options: ScreenOptions, state: ScreenState, outcomes: RestoreOutcomes)
    requires
        state.active,
        !restore_run(options, state, outcomes).2,
    ensures
        restore_run(options, state, outcomes).0 == restore_sequences(options, state),
        restore_run(options, state, outcomes).1 == released_state(),
{
    reveal(cancel_step);
    reveal(disable_step);
    let (wp, sp, fp) = prefix_run(options, state, outcomes);
    let (w2, s2, f2) = disable_step(sp, ScreenMode::Cursor, show_cursor_bytes(), outcomes.cursor_cancel, outcomes.cursor);
    let (w3, s3, f3) = disable_step(s2, ScreenMode::Paste, disable_paste_bytes(), outcomes.paste_cancel, outcomes.paste);
    let (w4, s4, f4) = disable_step(s3, ScreenMode::Alternate, leave_alternate_bytes(), outcomes.alternate_cancel, outcomes.alternate);
    assert(!sp.uncertain);
    assert(wp + (w2 + w3 + w4) =~= restore_sequences(options, state));
}

/// Which mode a step restores.
pub enum ScreenMode {
    Cursor,
    Paste,
    Alternate,
}

pub open spec fn mode_marked(state: ScreenState, mode: ScreenMode) -> bool {
    match mode {
        ScreenMode::Cursor => state.cursor,
        ScreenMode::Paste => state.paste,
        ScreenMode::Alternate => state.alternate,
    }
}

pub open spec fn without_mode(state: ScreenState, mode: ScreenMode) -> ScreenState {
    match mode {
        ScreenMode::Cursor => ScreenState { cursor: false, ..state },
        ScreenMode::Paste => ScreenState { paste: false, ..state },
        ScreenMode::Alternate => ScreenState { alternate: false, ..state },
    }
}

pub open spec fn with_mode(state: ScreenState, mode: ScreenMode) -> ScreenState {
    match mode {
        ScreenMode::Cursor => ScreenState { cursor: true, ..state },
        ScreenMode::Paste => ScreenState { paste: true, ..state },
        ScreenMode::Alternate => ScreenState { alternate: true, ..state },
    }
}

/// Screen modes negotiated on a writer. Every mode that was enabled is
/// restored when the guard is left; a failed write leaves the mode marked so
/// that a later attempt restores it.
pub struct ScreenGuard<'a, W: ?Sized> {
    output: &'a mut W,
    options: ScreenOptions,
    state: ScreenState,
    /// The control sequences the guard wrote or tried to write, in order.
    written: Ghost<Seq<Seq<u8>>>,
}

impl<'a, W: ?Sized> ScreenGuard<'a, W> {
    pub closed spec fn options(&self) -> ScreenOptions {
        self.options
    }

    /// The modes still to restore, with the active and uncertain marks.
    pub closed spec fn state(&self) -> ScreenState {
        self.state
    }

    /// The control sequences written or tried, in order.
    pub closed spec fn attempted(&self) -> Seq<Seq<u8>> {
        self.written@
    }
}

impl<'a, W: Write + ?Sized> ScreenGuard<'a, W> {
    /// Enter the modes of `options`; when a write fails, every mode already
    /// marked is rolled back before the error is returned.
    pub fn enter(output: &'a mut W, options: ScreenOptions) -> (entered: io::Result<Self>)
        ensures
            entered matches Ok(guard) ==> guard.state() == entered_state(options) && guard.options()
                == options && guard.attempted() == entry_sequences(options),
    {
        let mut guard = ScreenGuard {
            output,
            options,
            state: ScreenState { active: true, alternate: false, paste: false, cursor: false, uncertain: false },
            written: Ghost(Seq::empty()),
        };
        let entered = guard.enter_modes();
        match entered {
            Ok(()) => Ok(guard),
            Err(error) => {
                let rollback = guard.restore();
                match rollback {
                    Ok(()) => Err(error),
                    Err(second) => {
                        let mut failures: Vec<io::Error> = Vec::new();
                        failures.push(error);
                        failures.push(second);
                        Err(combine_failures(failures))
                    },
                }
            },
        }
    }

    /// The writer under the guard.
    pub fn writer(&mut self) -> (writer: &mut W) {
        self.output
    }

    /// Restore every enabled mode: two passes of [`ScreenGuard::restore`],
    /// each trying the writes [`restore_run`] describes, the second
    /// finishing what a failure in the first left; the first pass's result
    /// is returned.
    pub fn leave(self) -> (left: io::Result<()>)
        ensures
            !self.state().active ==> left is Ok,
    {
        let mut guard = self;
        let first = guard.restore();
        let _second = guard.restore();
        first
    }

    fn enter_modes(&mut self) -> (entered: io::Result<()>)
        requires
            old(self).state == (ScreenState { active: true, alternate: false, paste: false, cursor: false, uncertain: false }),
            old(self).written@ == Seq::<Seq<u8>>::empty(),
        ensures
            entered is Ok ==> final(self).state == entered_state(final(self).options)
                && final(self).written@ == entry_sequences(final(self).options),
            final(self).options == old(self).options,
            final(self).state.active,
    {
        if self.options.kind == ScreenKind::Alternate {
            let sequence = enter_alternate();
            let result = self.enable_mode(ScreenMode::Alternate, &sequence);
            if result.is_err() {
                return result;
            }
        }
        if self.options.bracketed_paste {
            let sequence = enable_paste();
            let result = self.enable_mode(ScreenMode::Paste, &sequence);
            if result.is_err() {
                return result;
            }
        }
        if self.options.cursor == CursorPolicy::Hide {
            let sequence = hide_cursor();
            let result = self.enable_mode(ScreenMode::Cursor, &sequence);
            if result.is_err() {
                return result;
            }
        }
        assert(self.written@ =~= entry_sequences(self.options));
        flush_output(self.output)
    }

    /// Mark a mode before writing its sequence, so that a rollback emits its
    /// inverse even after a write that stopped partway.
    fn enable_mode(&mut self, mode: ScreenMode, sequence: &Vec<u8>) -> (enabled: io::Result<()>)
        ensures
            enabled is Ok ==> final(self).state == with_mode(old(self).state, mode),
            enabled is Err ==> final(self).state == (ScreenState { uncertain: true, ..with_mode(old(self).state, mode) }),
            final(self).written@ == old(self).written@.push(sequence@),
            final(self).options == old(self).options,
    {
        match mode {
            ScreenMode::Cursor => self.state.cursor = true,
            ScreenMode::Paste => self.state.paste = true,
            ScreenMode::Alternate => self.state.alternate = true,
        }
        let result = write_all_to(self.output, sequence.as_slice());
        proof {
            self.written@ = self.written@.push(sequence@);
        }
        match result {
            Ok(()) => Ok(()),
            Err(error) => {
                self.state.uncertain = true;
                Err(error)
            },
        }
    }

    /// Write the cancel byte when a sequence may have been cut short.
    fn cancel_partial(&mut self, failures: &mut Vec<io::Error>) -> (ok: Ghost<bool>)
        ensures
            final(self).written@ == old(self).written@ + cancel_step(old(self).state, ok@).0,
            final(self).state == cancel_step(old(self).state, ok@).1,
            final(failures)@.len() == old(failures)@.len() + cancel_step(old(self).state, ok@).2,
            final(self).options == old(self).options,
    {
        reveal(cancel_step);
        if !self.state.uncertain {
            assert(self.written@ + Seq::<Seq<u8>>::empty() =~= self.written@);
            return Ghost(true);
        }
        let sequence = cancel_sequence();
        let result = write_all_to(self.output, sequence.as_slice());
        proof {
            self.written@ = self.written@.push(sequence@);
            assert(self.written@ =~= old(self).written@ + seq![cancel_bytes()]);
        }
        match result {
            Ok(()) => {
                self.state.uncertain = false;
                Ghost(true)
            },
            Err(error) => {
                failures.push(error);
                Ghost(false)
            },
        }
    }

    /// Restore one mode if it is marked: cancel a cut sequence first, and
    /// write nothing more while the terminal's state is uncertain.
    fn disable_mode(&mut self, mode: ScreenMode, sequence: &Vec<u8>, failures: &mut Vec<io::Error>) -> (oks: Ghost<
        (bool, bool),
    >)
        ensures
            final(self).written@ == old(self).written@ + disable_step(old(self).state, mode, sequence@, oks@.0, oks@.1).0,
            final(self).state == disable_step(old(self).state, mode, sequence@, oks@.0, oks@.1).1,
            final(failures)@.len() == old(failures)@.len() + disable_step(old(self).state, mode, sequence@, oks@.0, oks@.1).2,
            final(self).options == old(self).options,
    {
        reveal(disable_step);
        reveal(cancel_step);
        if !self.mode_is_marked(&mode) {
            return Ghost((true, true));
        }
        let cancelled = self.cancel_partial(failures);
        if self.state.uncertain {
            return Ghost((cancelled@, true));
        }
        let result = write_all_to(self.output, sequence.as_slice());
        proof {
            self.written@ = self.written@.push(sequence@);
        }
        match result {
            Ok(()) => {
                match mode {
                    ScreenMode::Cursor => self.state.cursor = false,
                    ScreenMode::Paste => self.state.paste = false,
                    ScreenMode::Alternate => self.state.alternate = false,
                }
                Ghost((cancelled@, true))
            },
            Err(error) => {
                self.state.uncertain = true;
                failures.push(error);
                Ghost((cancelled@, false))
            },
        }
    }

    fn mode_is_marked(&self, mode: &ScreenMode) -> (marked: bool)
        ensures
            marked == mode_marked(self.state, *mode),
    {
        match mode {
            ScreenMode::Cursor => self.state.cursor,
            ScreenMode::Paste => self.state.paste,
            ScreenMode::Alternate => self.state.alternate,
        }
    }

    /// The cancel byte when needed, then the clear of the inline line when
    /// asked; how the writes went is given back.
    fn restore_prefix(&mut self, failures: &mut Vec<io::Error>) -> (outcomes: Ghost<(bool, bool)>)
        ensures
            ({
                let o = RestoreOutcomes { cancel: outcomes@.0, clear: outcomes@.1, ..arbitrary_outcomes() };
                let (w, st, f) = prefix_run(old(self).options, old(self).state, o);
                &&& final(self).written@ == old(self).written@ + w
                &&& final(self).state == st
                &&& final(failures)@.len() == old(failures)@.len() + f
            }),
            final(self).options == old(self).options,
    {
        let cancel_ok = self.cancel_partial(failures);
        let ghost after_cancel = self.written@;
        let ghost mut clear_ok = true;
        if self.options.kind == ScreenKind::Inline && self.options.clear_inline_on_leave {
            let sequence = clear_inline();
            let result = write_all_to(self.output, sequence.as_slice());
            proof {
                self.written@ = self.written@.push(sequence@);
                clear_ok = result is Ok;
            }
            attempt(failures, result);
        }
        proof {
            let o = RestoreOutcomes { cancel: cancel_ok@, clear: clear_ok, ..arbitrary_outcomes() };
            let (w0, s0, f0) = cancel_step(old(self).state, cancel_ok@);
            assert(after_cancel == old(self).written@ + w0);
            assert(self.written@ =~= old(self).written@ + prefix_run(old(self).options, old(self).state, o).0);
        }
        Ghost((cancel_ok@, clear_ok))
    }

    /// The marked modes restored in reverse order of entry; how the writes
    /// went is given back.
    fn restore_modes(&mut self, failures: &mut Vec<io::Error>) -> (outcomes: Ghost<(bool, bool, bool, bool, bool, bool)>)
        ensures
            ({
                let o = RestoreOutcomes {
                    cursor_cancel: outcomes@.0,
                    cursor: outcomes@.1,
                    paste_cancel: outcomes@.2,
                    paste: outcomes@.3,
                    alternate_cancel: outcomes@.4,
                    alternate: outcomes@.5,
                    ..arbitrary_outcomes()
                };
                let (w, st, f) = modes_run(old(self).state, o);
                &&& final(self).written@ == old(self).written@ + w
                &&& final(self).state == st
                &&& final(failures)@.len() == old(failures)@.len() + f
            }),
            final(self).options == old(self).options,
    {
        let ghost start = self.written@;
        let cursor = show_cursor();
        let cursor_oks = self.disable_mode(ScreenMode::Cursor, &cursor, failures);
        let ghost after_cursor = self.written@;
        let paste = disable_paste();
        let paste_oks = self.disable_mode(ScreenMode::Paste, &paste, failures);
        let ghost after_paste = self.written@;
        let alternate = leave_alternate();
        let alternate_oks = self.disable_mode(ScreenMode::Alternate, &alternate, failures);
        proof {
            let (w2, s2, f2) = disable_step(old(self).state, ScreenMode::Cursor, show_cursor_bytes(), cursor_oks@.0, cursor_oks@.1);
            let (w3, s3, f3) = disable_step(s2, ScreenMode::Paste, disable_paste_bytes(), paste_oks@.0, paste_oks@.1);
            let (w4, s4, f4) = disable_step(s3, ScreenMode::Alternate, leave_alternate_bytes(), alternate_oks@.0, alternate_oks@.1);
            assert(after_paste =~= start + w2 + w3);
            assert(self.written@ =~= start + (w2 + w3 + w4));
        }
        Ghost((cursor_oks@.0, cursor_oks@.1, paste_oks@.0, paste_oks@.1, alternate_oks@.0, alternate_oks@.1))
    }

    /// One pass of writes restoring every marked mode, each tried even
    /// after a failure; how the writes went is given back.
    fn restore_pass(&mut self, failures: &mut Vec<io::Error>) -> (outcomes: Ghost<RestoreOutcomes>)
        requires
            old(failures)@.len() == 0,
        ensures
            final(self).written@ == old(self).written@ + restore_run(old(self).options, old(self).state, outcomes@).0,
            (final(failures)@.len() > 0) == restore_run(old(self).options, old(self).state, outcomes@).2,
            final(self).state == restore_pass_marks(old(self).options, old(self).state, outcomes@),
            final(self).options == old(self).options,
    {
        let prefix = self.restore_prefix(failures);
        let ghost after_prefix = self.written@;
        let modes = self.restore_modes(failures);
        let flushed = flush_output(self.output);
        let ghost flush_ok = flushed is Ok;
        attempt(failures, flushed);
        let ghost outcomes = RestoreOutcomes {
            cancel: prefix@.0,
            clear: prefix@.1,
            cursor_cancel: modes@.0,
            cursor: modes@.1,
            paste_cancel: modes@.2,
            paste: modes@.3,
            alternate_cancel: modes@.4,
            alternate: modes@.5,
            flush: flush_ok,
        };
        proof {
            let (wp, sp, fp) = prefix_run(old(self).options, old(self).state, outcomes);
            let (wm, sm, fm) = modes_run(sp, outcomes);
            assert(self.written@ =~= old(self).written@ + (wp + wm));
        }
        Ghost(outcomes)
    }

    /// Restore every marked mode, trying each even after a failure. Without
    /// a failure every mark is cleared and the guard is released; after a
    /// failure the guard stays active, so that another pass can finish.
    pub fn restore(&mut self) -> (left: io::Result<()>)
        ensures
            left is Err ==> final(self).state().active,
            !old(self).state().active ==> left is Ok && final(self).state() == old(self).state()
                && final(self).attempted() == old(self).attempted(),
            old(self).state().active && left is Ok ==> final(self).state() == released_state()
                && final(self).attempted() == old(self).attempted() + restore_sequences(
                old(self).options(),
                old(self).state(),
            ),
            old(self).state().active ==> exists|outcomes: RestoreOutcomes|
                {
                    let (tried, marks, failed) = #[trigger] restore_run(old(self).options(), old(self).state(), outcomes);
                    &&& final(self).attempted() == old(self).attempted() + tried
                    &&& final(self).state() == marks
                    &&& (left is Err <==> failed)
                },
            final(self).options() == old(self).options(),
    {
        if !self.state.active {
            return Ok(());
        }
        let mut failures: Vec<io::Error> = Vec::new();
        let outcomes = self.restore_pass(&mut failures);
        proof {
            lemma_pass_keeps_active(old(self).options, old(self).state, outcomes@);
        }
        if failures.len() == 0 {
            self.state.active = false;
            self.state.uncertain = false;
            proof {
                lemma_clean_run(old(self).options, old(self).state, outcomes@);
            }
        }
        proof {
            let run = restore_run(old(self).options, old(self).state, outcomes@);
            assert(self.state == run.1);
        }
        failures_result(failures)
    }
}

/// Several failures as one error, under the kind of the first.
fn combine_failures(failures: Vec<io::Error>) -> (error: io::Error)
    requires
        failures@.len() > 0,
{
    let kind = io_error_kind(&failures[0]);
    let combined = ScreenFailures { failures };
    io_error_new(kind, combined.message())
}

/// One failure is reported as it is; several are reported together.
fn failures_result(failures: Vec<io::Error>) -> (result: io::Result<()>)
    ensures
        result is Ok <==> failures@.len() == 0,
        failures@.len() == 1 ==> result == Err::<(), io::Error>(failures@[0]),
{
    if failures.len() == 0 {
        Ok(())
    } else if failures.len() == 1 {
        let mut failures = failures;
        let only = failures.pop();
        match only {
            Some(error) => Err(error),
            None => Ok(()),
        }
    } else {
        Err(combine_failures(failures))
    }
}

fn attempt(failures: &mut Vec<io::Error>, result: io::Result<()>)
    ensures
        match result {
            Ok(()) => final(failures)@ == old(failures)@,
            Err(error) => final(failures)@ == old(failures)@.push(error),
        },
{
    match result {
        Ok(()) => {},
        Err(error) => failures.push(error),
    }
}

/// The sequence that undoes an entry sequence.
pub open spec fn inverse_sequence(sequence: Seq<u8>) -> Seq<u8> {
    if sequence == enter_alternate_bytes() {
        leave_alternate_bytes()
    } else if sequence == enable_paste_bytes() {
        disable_paste_bytes()
    } else if sequence == hide_cursor_bytes() {
        show_cursor_bytes()
    } else {
        Seq::empty()
    }
}

/// What leaving writes before the modes are undone: the clear of the inline
/// line, when asked.
pub open spec fn leave_prefix(options: ScreenOptions) -> Seq<Seq<u8>> {
    if options.screen_kind() == ScreenKind::Inline && options.clears_inline() {
        seq![clear_inline_bytes()]
    } else {
        Seq::empty()
    }
}

/// Leaving a guard that entered all its modes undoes each of them, in
/// reverse order of entry, after the optional clear of the inline line.
pub proof fn law_leave_undoes_entry_in_reverse(options: ScreenOptions)
    ensures
        restore_sequences(options, entered_state(options)) == leave_prefix(options) + entry_sequences(
            options,
        ).reverse().map_values(|s: Seq<u8>| inverse_sequence(s)),
{
    let entry = entry_sequences(options);
    assert(enter_alternate_bytes() != enable_paste_bytes());
    assert(enter_alternate_bytes() != hide_cursor_bytes());
    assert(enable_paste_bytes() != hide_cursor_bytes());
    assert(enable_paste_bytes().len() != hide_cursor_bytes().len());
    assert(enter_alternate_bytes()[5] != enable_paste_bytes()[5]);
    assert(restore_sequences(options, entered_state(options)) =~= leave_prefix(options) + entry.reverse().map_values(
        |s: Seq<u8>| inverse_sequence(s),
    ));
}

/// The inline screen policy: a guard over `ScreenOptions::inline()`.
pub struct InlineScreenGuard<'a, W: ?Sized> {
    inner: ScreenGuard<'a, W>,
}

impl<'a, W: ?Sized> InlineScreenGuard<'a, W> {
    pub closed spec fn guard(&self) -> &ScreenGuard<'a, W> {
        &self.inner
    }
}

impl<'a, W: Write + ?Sized> InlineScreenGuard<'a, W> {
    pub fn enter(output: &'a mut W) -> (entered: io::Result<Self>)
        ensures
            entered matches Ok(guard) ==> guard.guard().options().pastes_bracketed()
                && guard.guard().options().screen_kind() == ScreenKind::Inline
                && guard.guard().options().cursor_policy() == CursorPolicy::Hide
                && guard.guard().options().clears_inline()
                && guard.guard().state() == entered_state(guard.guard().options())
                && guard.guard().attempted() == entry_sequences(guard.guard().options()),
    {
        match ScreenGuard::enter(output, ScreenOptions::inline()) {
            Ok(inner) => Ok(InlineScreenGuard { inner }),
            Err(error) => Err(error),
        }
    }

    /// An inline screen with bracketed paste as asked.
    pub fn enter_with_bracketed_paste(output: &'a mut W, enabled: bool) -> (entered: io::Result<Self>)
        ensures
            entered matches Ok(guard) ==> guard.guard().options().pastes_bracketed() == enabled
                && guard.guard().options().screen_kind() == ScreenKind::Inline
                && guard.guard().options().cursor_policy() == CursorPolicy::Hide
                && guard.guard().options().clears_inline()
                && guard.guard().state() == entered_state(guard.guard().options())
                && guard.guard().attempted() == entry_sequences(guard.guard().options()),
    {
        match ScreenGuard::enter(output, ScreenOptions::inline().bracketed_paste(enabled)) {
            Ok(inner) => Ok(InlineScreenGuard { inner }),
            Err(error) => Err(error),
        }
    }

    pub fn writer(&mut self) -> (writer: &mut W) {
        self.inner.writer()
    }

    pub fn leave(self) -> (left: io::Result<()>)
        ensures
            !self.guard().state().active ==> left is Ok,
    {
        self.inner.leave()
    }
}

/// Hide the cursor and flush.
pub fn enter_inline_screen<W: Write + ?Sized>(output: &mut W) -> (entered: io::Result<()>) {
    let sequence = hide_cursor();
    match write_all_to(output, sequence.as_slice()) {
        Ok(()) => flush_output(output),
        Err(error) => Err(error),
    }
}

/// Clear the inline line, show the cursor and flush.
pub fn leave_inline_screen<W: Write + ?Sized>(output: &mut W) -> (left: io::Result<()>) {
    let clear = clear_inline();
    match write_all_to(output, clear.as_slice()) {
        Ok(()) => {},
        Err(error) => return Err(error),
    }
    let show = show_cursor();
    match write_all_to(output, show.as_slice()) {
        Ok(()) => flush_output(output),
        Err(error) => Err(error),
    }
}

} // verus!
