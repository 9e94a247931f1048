//! The process an overlay runs beside its widget, and the policies of the
//! overlay: who gets the input, where it is placed, what Ctrl-C does.

use vstd::prelude::*;
use vstd::view::View as _;

use crate::text::{strings_view, IntoText};

verus! {

/// A program and its arguments.
#[derive(Clone, Debug, Eq, PartialEq)]
pub struct ProcessSpec {
    program: String,
    args: Vec<String>,
}

impl ProcessSpec {
    pub closed spec fn program_text(&self) -> Seq<char> {
        self.program@
    }

    pub closed spec fn arguments(&self) -> Seq<Seq<char>> {
        strings_view(self.args@)
    }

    /// The program, with no arguments.
    pub fn new<T: IntoText>(program: T) -> (spec: Self)
        ensures
            spec.program_text() == program.text_chars(),
            spec.arguments().len() == 0,
    {
        ProcessSpec { program: program.into_text(), args: Vec::new() }
    }

    /// One more argument.
    pub fn arg<T: IntoText>(self, arg: T) -> (spec: Self)
        ensures
            spec.program_text() == self.program_text(),
            spec.arguments() == self.arguments().push(arg.text_chars()),
    {
        let mut args = self.args;
        let ghost before = args@;
        args.push(arg.into_text());
        assert(strings_view(args@) =~= strings_view(before).push(args@.last()@));
        ProcessSpec { program: self.program, args }
    }

    /// More arguments, in order.
    pub fn args(self, more: Vec<String>) -> (spec: Self)
        ensures
            spec.program_text() == self.program_text(),
            spec.arguments() == self.arguments() + strings_view(more@),
    {
        let mut args = self.args;
        let ghost before = args@;
        let mut i: usize = 0;
        while i < more.len()
            invariant
                i <= more@.len(),
                strings_view(args@) == strings_view(before) + strings_view(more@.subrange(0, i as int)),
            decreases more@.len() - i,
        {
            let ghost previous = args@;
            args.push(more[i].clone());
            assert(strings_view(args@) =~= strings_view(previous).push(more@[i as int]@));
            assert(strings_view(more@.subrange(0, i + 1)) =~= strings_view(more@.subrange(0, i as int)).push(
                more@[i as int]@,
            ));
            i += 1;
        }
        assert(more@.subrange(0, more@.len() as int) =~= more@);
        ProcessSpec { program: self.program, args }
    }

    pub fn program(&self) -> (program: &str)
        ensures
            program@ == self.program_text(),
    {
        self.program.as_str()
    }

    pub fn argv(&self) -> (argv: &[String])
        ensures
            strings_view(argv@) == self.arguments(),
    {
        self.args.as_slice()
    }
}

/// Which side gets the input while the overlay runs.
#[derive(Clone, Copy, Debug, Eq, PartialEq, Structural)]
pub enum InputPolicy {
    ChildFirst,
    OverlayFirst,
    OverlayWhenOpen,
}

/// Where the overlay stands on the screen.
#[derive(Clone, Copy, Debug, Eq, PartialEq, Structural)]
pub enum OverlayPlacement {
    Inline,
    Bottom { height: u16 },
    Floating { row: u16, col: u16, width: u16 },
}

/// What Ctrl-C does while the overlay runs.
#[derive(Clone, Copy, Debug, Eq, PartialEq, Structural)]
pub enum CtrlCPolicy {
    Child,
    CancelOverlay,
    AbortRuntime,
}

} // verus!
