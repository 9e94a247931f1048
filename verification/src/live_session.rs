//! How a live terminal session ends: its outcome or its error, with every
//! failure of the cleanup that follows it.

use std::io;

use vstd::prelude::*;
use vstd::view::View as _;

use crate::bang_core::render::{CursorPlacement, ListPresentation, Presentation, View};
use crate::bang_core::value::Value;
use crate::io_error::{io_error_text, io_kind_class, IoKindClass};
use crate::terminal::runner::RunOutcome;
use crate::text::{push_decimal, push_signed_decimal, push_str};

verus! {

/// The part of the terminal whose restoration failed.
#[derive(Clone, Copy, Debug, Eq, PartialEq, Structural)]
#[non_exhaustive]
pub enum CleanupStage {
    Renderer,
    Screen,
    Signals,
    RawMode,
}

/// The name `Debug` gives a stage.
pub open spec fn stage_name(stage: CleanupStage) -> Seq<char> {
    match stage {
        CleanupStage::Renderer => "Renderer"@,
        CleanupStage::Screen => "Screen"@,
        CleanupStage::Signals => "Signals"@,
        CleanupStage::RawMode => "RawMode"@,
    }
}

fn stage_label(stage: CleanupStage) -> (name: &'static str)
    ensures
        name@ == stage_name(stage),
{
    match stage {
        CleanupStage::Renderer => "Renderer",
        CleanupStage::Screen => "Screen",
        CleanupStage::Signals => "Signals",
        CleanupStage::RawMode => "RawMode",
    }
}

/// A restoration that failed, and its error.
#[derive(Debug)]
pub struct CleanupFailure {
    stage: CleanupStage,
    source: io::Error,
}

impl CleanupFailure {
    pub closed spec fn failed_stage(&self) -> CleanupStage {
        self.stage
    }

    pub closed spec fn failure(&self) -> io::Error {
        self.source
    }

    pub fn stage(&self) -> (stage: CleanupStage)
        ensures
            stage == self.failed_stage(),
    {
        self.stage
    }

    pub fn source_error(&self) -> (source: &io::Error)
        ensures
            *source == self.failure(),
    {
        &self.source
    }
}

/// Why a live session gave no value.
#[derive(Debug)]
pub enum LiveSessionError {
    Unavailable,
    RawMode(io::Error),
    Signals(io::Error),
    TerminalIo(io::Error),
    Cancelled,
    InputEnded,
    Signalled(i32),
    ReraiseSignal { signal: i32, source: io::Error },
    Cleanup { primary: Option<Box<LiveSessionError>>, failures: Vec<CleanupFailure> },
}

/// The errors, in order, of the stages whose restoration failed.
pub open spec fn failures_of(results: Seq<(CleanupStage, Result<(), io::Error>)>) -> Seq<(CleanupStage, io::Error)>
    decreases results.len(),
{
    if results.len() == 0 {
        Seq::empty()
    } else {
        let before = failures_of(results.drop_last());
        match results.last().1 {
            Ok(()) => before,
            Err(e) => before.push((results.last().0, e)),
        }
    }
}

proof fn lemma_failures_step(results: Seq<(CleanupStage, Result<(), io::Error>)>, n: int)
    requires
        0 <= n < results.len(),
    ensures
        failures_of(results.subrange(0, n + 1)) == match results[n].1 {
            Ok(()) => failures_of(results.subrange(0, n)),
            Err(e) => failures_of(results.subrange(0, n)).push((results[n].0, e)),
        },
{
    assert(results.subrange(0, n + 1).drop_last() =~= results.subrange(0, n));
}

pub open spec fn failure_pairs(failures: Seq<CleanupFailure>) -> Seq<(CleanupStage, io::Error)> {
    Seq::new(failures.len(), |i: int| (failures[i].failed_stage(), failures[i].failure()))
}

impl LiveSessionError {
    /// The error that ended the session: itself, or what a failed cleanup
    /// followed.
    pub fn primary(&self) -> (primary: Option<&Self>)
        ensures
            match self {
                LiveSessionError::Cleanup { primary: p, .. } => match p {
                    Some(b) => primary == Some(&**b),
                    None => primary is None,
                },
                _ => primary == Some(self),
            },
    {
        match self {
            LiveSessionError::Cleanup { primary, .. } => match primary {
                Some(error) => Some(&**error),
                None => None,
            },
            _ => Some(self),
        }
    }

    /// The failed restorations, none unless the cleanup failed.
    pub fn cleanup_failures(&self) -> (failures: &[CleanupFailure])
        ensures
            match self {
                LiveSessionError::Cleanup { failures: f, .. } => failures@ == f@,
                _ => failures@.len() == 0,
            },
    {
        match self {
            LiveSessionError::Cleanup { failures, .. } => failures.as_slice(),
            _ => &[],
        }
    }

    /// The message of the error, as it is shown to a user: fixed words for
    /// the session's own ends, and for a failed operation what failed
    /// followed by the error's own text.
    pub fn message(&self) -> (text: String)
        ensures
            match self {
                LiveSessionError::Unavailable => text@ == "interactive terminal input is unavailable"@,
                LiveSessionError::Cancelled => text@ == "cancelled"@,
                LiveSessionError::InputEnded => text@ == "input ended before submit"@,
                LiveSessionError::Signalled(signal) => text@ == "interrupted by signal "@ + signed_text(*signal as int),
                LiveSessionError::Signals(_) => starts_with(text@, "failed to install terminal signal handlers: "@),
                LiveSessionError::TerminalIo(_) => starts_with(text@, "terminal I/O failed: "@),
                LiveSessionError::ReraiseSignal { signal, .. } => starts_with(
                    text@,
                    "failed to re-raise signal "@ + signed_text(*signal as int) + ": "@,
                ),
                LiveSessionError::Cleanup { primary, .. } => primary is None ==> starts_with(
                    text@,
                    "terminal cleanup failed: "@,
                ),
                LiveSessionError::RawMode(_) => true,
            },
        decreases self,
    {
        let mut text = String::new();
        assert(text@ =~= Seq::<char>::empty());
        match self {
            LiveSessionError::Unavailable => {
                push_str(&mut text, "interactive terminal input is unavailable");
                assert(text@ =~= "interactive terminal input is unavailable"@);
            },
            LiveSessionError::RawMode(error) => {
                match io_kind_class(error) {
                    IoKindClass::Unsupported | IoKindClass::NotConnected => {},
                    IoKindClass::Other => push_str(&mut text, "failed to enable terminal raw mode: "),
                }
                push_str(&mut text, io_error_text(error).as_str());
            },
            LiveSessionError::Signals(error) => {
                push_str(&mut text, "failed to install terminal signal handlers: ");
                let ghost prefix = text@;
                push_str(&mut text, io_error_text(error).as_str());
                assert(text@.subrange(0, prefix.len() as int) =~= prefix);
            },
            LiveSessionError::TerminalIo(error) => {
                push_str(&mut text, "terminal I/O failed: ");
                let ghost prefix = text@;
                push_str(&mut text, io_error_text(error).as_str());
                assert(text@.subrange(0, prefix.len() as int) =~= prefix);
            },
            LiveSessionError::Cancelled => {
                push_str(&mut text, "cancelled");
                assert(text@ =~= "cancelled"@);
            },
            LiveSessionError::InputEnded => {
                push_str(&mut text, "input ended before submit");
                assert(text@ =~= "input ended before submit"@);
            },
            LiveSessionError::Signalled(signal) => {
                push_str(&mut text, "interrupted by signal ");
                push_signed_decimal(&mut text, *signal as i64);
                assert(text@ =~= "interrupted by signal "@ + signed_text(*signal as int));
            },
            LiveSessionError::ReraiseSignal { signal, source } => {
                push_str(&mut text, "failed to re-raise signal ");
                push_signed_decimal(&mut text, *signal as i64);
                push_str(&mut text, ": ");
                let ghost prefix = text@;
                assert(prefix =~= "failed to re-raise signal "@ + signed_text(*signal as int) + ": "@);
                push_str(&mut text, io_error_text(source).as_str());
                assert(text@.subrange(0, prefix.len() as int) =~= prefix);
            },
            LiveSessionError::Cleanup { primary, failures } => {
                match primary {
                    Some(error) => {
                        let first = error.message();
                        push_str(&mut text, first.as_str());
                        push_str(&mut text, "; ");
                    },
                    None => {},
                }
                push_str(&mut text, "terminal cleanup failed: ");
                let ghost base = text@;
                assert(primary is None ==> base =~= "terminal cleanup failed: "@);
                let mut i: usize = 0;
                while i < failures.len()
                    invariant
                        base.len() <= text@.len(),
                        text@.subrange(0, base.len() as int) == base,
                    decreases failures@.len() - i,
                {
                    let ghost before = text@;
                    if i > 0 {
                        push_str(&mut text, "; ");
                    }
                    push_str(&mut text, stage_label(failures[i].stage));
                    push_str(&mut text, ": ");
                    push_str(&mut text, io_error_text(&failures[i].source).as_str());
                    assert(text@.subrange(0, before.len() as int) =~= before);
                    assert(text@.subrange(0, base.len() as int) =~= before.subrange(0, base.len() as int));
                    i += 1;
                }
            },
        }
        text
    }
}

/// The decimal text of a signed number.
pub open spec fn signed_text(n: int) -> Seq<char> {
    crate::text::signed_decimal_chars(n)
}

/// Whether `text` begins with `prefix`.
pub open spec fn starts_with(text: Seq<char>, prefix: Seq<char>) -> bool {
    prefix.len() <= text.len() && text.subrange(0, prefix.len() as int) == prefix
}

/// Keep the error of a restoration that failed.
pub fn collect_cleanup(failures: &mut Vec<CleanupFailure>, stage: CleanupStage, result: Result<(), io::Error>)
    ensures
        match result {
            Ok(()) => final(failures)@ == old(failures)@,
            Err(e) => final(failures)@.len() == old(failures)@.len() + 1 && final(failures)@.subrange(
                0,
                old(failures)@.len() as int,
            ) == old(failures)@ && final(failures)@.last().failed_stage() == stage && final(failures)@.last().failure()
                == e,
        },
{
    match result {
        Ok(()) => {},
        Err(source) => {
            let ghost before = failures@;
            failures.push(CleanupFailure { stage, source });
            assert(failures@.subrange(0, before.len() as int) =~= before);
        },
    }
}

/// A primary error, wrapped with the cleanup failures when there are any.
pub fn with_cleanup(primary: LiveSessionError, failures: Vec<CleanupFailure>) -> (error: LiveSessionError)
    ensures
        failures@.len() == 0 ==> error == primary,
        failures@.len() > 0 ==> (error matches LiveSessionError::Cleanup { primary: Some(p), failures: f } && *p == primary
            && f@ == failures@),
{
    if failures.len() == 0 {
        primary
    } else {
        LiveSessionError::Cleanup { primary: Some(Box::new(primary)), failures }
    }
}

/// The result a run outcome gives before any cleanup.
pub open spec fn primary_result(outcome: Result<RunOutcome, io::Error>) -> Result<Value, LiveSessionError> {
    match outcome {
        Ok(RunOutcome::Submitted(value)) => Ok(value),
        Ok(RunOutcome::Cancelled) => Err(LiveSessionError::Cancelled),
        Ok(RunOutcome::InputEnded) => Err(LiveSessionError::InputEnded),
        Ok(RunOutcome::Signalled(signal)) => Err(LiveSessionError::Signalled(signal)),
        Err(error) => Err(LiveSessionError::TerminalIo(error)),
    }
}

/// How a live session ends: the signal that interrupted it, to be raised
/// again, and its result — the primary result when every restoration
/// succeeded, else a cleanup error that carries the primary error and the
/// failures in the order renderer, screen, signals, raw mode.
pub fn settle_live_session(
    outcome: Result<RunOutcome, io::Error>,
    renderer: Result<(), io::Error>,
    screen: Result<(), io::Error>,
    signals: Result<(), io::Error>,
    raw_mode: Result<(), io::Error>,
) -> (settled: (Option<i32>, Result<Value, LiveSessionError>))
    ensures
        settled.0 == match outcome {
            Ok(RunOutcome::Signalled(signal)) => Some(signal),
            _ => None::<i32>,
        },
        ({
            let failures = failures_of(
                seq![
                    (CleanupStage::Renderer, renderer),
                    (CleanupStage::Screen, screen),
                    (CleanupStage::Signals, signals),
                    (CleanupStage::RawMode, raw_mode),
                ],
            );
            if failures.len() == 0 {
                settled.1 == primary_result(outcome)
            } else {
                settled.1 matches Err(LiveSessionError::Cleanup { primary: p, failures: f }) && failure_pairs(f@)
                    == failures && match primary_result(outcome) {
                    Ok(_) => p is None,
                    Err(e) => p matches Some(b) && *b == e,
                }
            }
        }),
{
    let ghost results = seq![
        (CleanupStage::Renderer, renderer),
        (CleanupStage::Screen, screen),
        (CleanupStage::Signals, signals),
        (CleanupStage::RawMode, raw_mode),
    ];
    let signal = match &outcome {
        Ok(RunOutcome::Signalled(signal)) => Some(*signal),
        _ => None,
    };
    let primary = match outcome {
        Ok(RunOutcome::Submitted(value)) => Ok(value),
        Ok(RunOutcome::Cancelled) => Err(LiveSessionError::Cancelled),
        Ok(RunOutcome::InputEnded) => Err(LiveSessionError::InputEnded),
        Ok(RunOutcome::Signalled(signal)) => Err(LiveSessionError::Signalled(signal)),
        Err(error) => Err(LiveSessionError::TerminalIo(error)),
    };
    let mut failures: Vec<CleanupFailure> = Vec::new();
    proof {
        assert(results.subrange(0, 0) =~= Seq::<(CleanupStage, Result<(), io::Error>)>::empty());
        assert(failure_pairs(failures@) =~= failures_of(results.subrange(0, 0)));
        lemma_failures_step(results, 0);
    }
    collect_cleanup(&mut failures, CleanupStage::Renderer, renderer);
    assert(failure_pairs(failures@) =~= failures_of(results.subrange(0, 1)));
    proof {
        lemma_failures_step(results, 1);
    }
    collect_cleanup(&mut failures, CleanupStage::Screen, screen);
    assert(failure_pairs(failures@) =~= failures_of(results.subrange(0, 2)));
    proof {
        lemma_failures_step(results, 2);
    }
    collect_cleanup(&mut failures, CleanupStage::Signals, signals);
    assert(failure_pairs(failures@) =~= failures_of(results.subrange(0, 3)));
    proof {
        lemma_failures_step(results, 3);
    }
    collect_cleanup(&mut failures, CleanupStage::RawMode, raw_mode);
    assert(results.subrange(0, 4) =~= results);
    assert(failure_pairs(failures@) =~= failures_of(results));
    if failures.len() == 0 {
        (signal, primary)
    } else {
        let primary_error = match primary {
            Ok(_) => None,
            Err(error) => Some(Box::new(error)),
        };
        (signal, Err(LiveSessionError::Cleanup { primary: primary_error, failures }))
    }
}

/// A view to be drawn, with the layout the renderer last reported for it.
#[derive(Debug)]
pub struct BangView {
    view: View,
    presentation: Presentation,
}

impl BangView {
    pub closed spec fn shown(&self) -> View {
        self.view
    }

    pub closed spec fn layout(&self) -> Seq<ListPresentation> {
        self.presentation.lists@
    }

    /// A view with no layout reported yet.
    pub fn new(view: View) -> (shown: Self)
        ensures
            shown.shown() == view,
            shown.layout().len() == 0,
    {
        BangView { view, presentation: Presentation { lists: Vec::new() } }
    }

    pub fn view(&self) -> (view: &View)
        ensures
            *view == self.shown(),
    {
        &self.view
    }

    pub fn into_view(self) -> (view: View)
        ensures
            view == self.shown(),
    {
        self.view
    }

    /// A copy of the layout last reported.
    pub fn presentation(&self) -> (presentation: Presentation)
        ensures
            presentation.lists@.len() == self.layout().len(),
            forall|i: int| 0 <= i < self.layout().len() ==> (#[trigger] presentation.lists@[i]).id@ == self.layout()[i].id@
                && presentation.lists@[i].visible == self.layout()[i].visible && presentation.lists@[i].fully_visible
                == self.layout()[i].fully_visible && presentation.lists@[i].page_up == self.layout()[i].page_up
                && presentation.lists@[i].page_down == self.layout()[i].page_down,
    {
        let mut lists: Vec<ListPresentation> = Vec::new();
        let mut i: usize = 0;
        while i < self.presentation.lists.len()
            invariant
                i <= self.presentation.lists@.len(),
                lists@.len() == i,
                forall|k: int| 0 <= k < i ==> (#[trigger] lists@[k]).id@ == self.presentation.lists@[k].id@
                    && lists@[k].visible == self.presentation.lists@[k].visible && lists@[k].fully_visible
                    == self.presentation.lists@[k].fully_visible && lists@[k].page_up == self.presentation.lists@[k].page_up
                    && lists@[k].page_down == self.presentation.lists@[k].page_down,
            decreases self.presentation.lists@.len() - i,
        {
            lists.push(self.presentation.lists[i].clone());
            i += 1;
        }
        Presentation { lists }
    }
}

/// Whether a view can grow to share the height it is given: a list does,
/// and so does a stack holding one.
pub open spec fn flexible(view: View) -> bool
    decreases view,
{
    match view {
        View::List(_) => true,
        View::Stack(children) => stack_flexible(children@),
        _ => false,
    }
}

pub open spec fn stack_flexible(children: Seq<View>) -> bool
    decreases children,
{
    if children.len() == 0 {
        false
    } else {
        stack_flexible(children.drop_last()) || flexible(children.last())
    }
}

/// The cursor a view asks for: its own, or in a stack the last one that
/// any child asks for.
pub open spec fn last_cursor(view: View) -> Option<CursorPlacement>
    decreases view,
{
    match view {
        View::Cursor(cursor) => Some(cursor),
        View::Stack(children) => stack_cursor(children@),
        _ => None,
    }
}

pub open spec fn stack_cursor(children: Seq<View>) -> Option<CursorPlacement>
    decreases children,
{
    if children.len() == 0 {
        None
    } else {
        match last_cursor(children.last()) {
            Some(cursor) => Some(cursor),
            None => stack_cursor(children.drop_last()),
        }
    }
}

/// Whether `view` can grow to share the height it is given.
pub fn view_is_flexible(view: &View) -> (grows: bool)
    ensures
        grows == flexible(*view),
    decreases view,
{
    match view {
        View::List(_) => true,
        View::Stack(children) => {
            let mut any = false;
            let mut i: usize = 0;
            assert(children@.subrange(0, 0) =~= Seq::<View>::empty());
            while i < children.len()
                invariant
                    i <= children@.len(),
                    *view == View::Stack(*children),
                    any == stack_flexible(children@.subrange(0, i as int)),
                decreases children@.len() - i,
            {
                proof {
                    vstd::std_specs::vec::axiom_vec_index_decreases(*children, i as int);
                    assert(decreases_to!(*view => view->Stack_0));
                }
                let child = view_is_flexible(&children[i]);
                assert(children@.subrange(0, i + 1).drop_last() =~= children@.subrange(0, i as int));
                any = any || child;
                i += 1;
            }
            assert(children@.subrange(0, children@.len() as int) =~= children@);
            any
        },
        _ => false,
    }
}

/// The cursor `view` asks for, if any.
pub fn cursor_placement(view: &View) -> (cursor: Option<&CursorPlacement>)
    ensures
        match last_cursor(*view) {
            Some(c) => cursor matches Some(p) && *p == c,
            None => cursor is None,
        },
    decreases view,
{
    match view {
        View::Cursor(cursor) => Some(cursor),
        View::Stack(children) => {
            let mut found: Option<&CursorPlacement> = None;
            let mut i: usize = 0;
            assert(children@.subrange(0, 0) =~= Seq::<View>::empty());
            while i < children.len()
                invariant
                    i <= children@.len(),
                    *view == View::Stack(*children),
                    match stack_cursor(children@.subrange(0, i as int)) {
                        Some(c) => found matches Some(p) && *p == c,
                        None => found is None,
                    },
                decreases children@.len() - i,
            {
                proof {
                    vstd::std_specs::vec::axiom_vec_index_decreases(*children, i as int);
                    assert(decreases_to!(*view => view->Stack_0));
                }
                let child = cursor_placement(&children[i]);
                assert(children@.subrange(0, i + 1).drop_last() =~= children@.subrange(0, i as int));
                assert(children@.subrange(0, i + 1).last() == children@[i as int]);
                if child.is_some() {
                    found = child;
                }
                i += 1;
            }
            assert(children@.subrange(0, children@.len() as int) =~= children@);
            found
        },
        _ => None,
    }
}

} // verus!
