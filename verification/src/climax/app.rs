//! The context an application runs in: its output policy, diagnostics and
//! terminal policy, and the lifecycle of one invocation.

use std::io::Write;
use vstd::prelude::*;

use crate::bang::interaction::{DriverKind, Interaction};
use crate::bang::typed::{
    multi_select, review, search, select, text, MultiSelectPrompt, ReviewPrompt, SearchPrompt, SelectPrompt,
    TextPrompt,
};
use crate::climax::error::{Error, ErrorKind};
use crate::climax::status::Status;
use crate::text::IntoText;
use crate::climax::output::{Format, Output, SharedWriter};
use crate::climax::terminal::{
    policy_interacts, InteractionMode, StatusMode, TerminalCapabilities, TerminalPolicy,
};

verus! {

/// The prompt driver a terminal policy calls for: the live terminal where
/// `Auto` finds it usable, no interaction where it does not or where
/// interaction is disabled, and the terminal regardless under `Force`.
pub open spec fn driver_for(policy: TerminalPolicy) -> DriverKind {
    match policy.interaction_override() {
        InteractionMode::Auto => if policy_interacts(policy.detected(), InteractionMode::Auto) {
            DriverKind::Live
        } else {
            DriverKind::Disabled
        },
        InteractionMode::Disabled => DriverKind::Disabled,
        InteractionMode::Force => DriverKind::Forced,
    }
}

/// The prompt interaction for a terminal policy.
pub fn interaction_for(terminal: TerminalPolicy) -> (interaction: Interaction)
    ensures
        interaction.driver_kind() == driver_for(terminal),
{
    match terminal.interaction_mode() {
        InteractionMode::Auto => if terminal.interaction_available() {
            Interaction::live()
        } else {
            Interaction::disabled()
        },
        InteractionMode::Disabled => Interaction::disabled(),
        InteractionMode::Force => Interaction::forced(),
    }
}

/// An application's policy, its output facilities and the interaction its
/// prompts run through.
pub struct Context {
    output: Output,
    diagnostic: Output,
    terminal: TerminalPolicy,
    interaction: Interaction,
}

impl Context {
    /// Diagnostics are always plain text.
    #[verifier::type_invariant]
    spec fn diagnostics_are_text(&self) -> bool {
        self.diagnostic.message_format() == Format::Text
    }
}

impl Clone for Context {
    fn clone(&self) -> (copy: Self)
        ensures
            copy.output_policy() == self.output_policy(),
            copy.terminal_policy() == self.terminal_policy(),
            copy.prompt_driver() == self.prompt_driver(),
    {
        proof {
            use_type_invariant(self);
        }
        Context {
            output: self.output.clone(),
            diagnostic: self.diagnostic.clone(),
            terminal: self.terminal,
            interaction: self.interaction.clone(),
        }
    }
}

impl Context {
    /// The format of durable output.
    pub closed spec fn output_policy(&self) -> Format {
        self.output.message_format()
    }

    pub closed spec fn terminal_policy(&self) -> TerminalPolicy {
        self.terminal
    }

    /// How this context's prompts run.
    pub closed spec fn prompt_driver(&self) -> DriverKind {
        self.interaction.driver_kind()
    }

    /// The writer of durable output.
    pub closed spec fn result_writer(&self) -> SharedWriter {
        self.output.result_writer()
    }

    /// The writer of notices beside the result.
    pub closed spec fn notice_writer(&self) -> SharedWriter {
        self.output.notice_writer()
    }

    /// The writer of diagnostics.
    pub closed spec fn diagnostic_writer(&self) -> SharedWriter {
        self.diagnostic.result_writer()
    }

    /// A context for a process with these terminal capabilities: text output
    /// to standard output, diagnostics and notices to standard error, no
    /// overrides of the terminal policy.
    pub fn with_capabilities(capabilities: TerminalCapabilities) -> (context: Self)
        ensures
            context.output_policy() == Format::Text,
            context.terminal_policy().detected() == capabilities,
            context.terminal_policy().interaction_override() == InteractionMode::Auto,
            context.terminal_policy().status_override() == StatusMode::Auto,
            context.prompt_driver() == driver_for(context.terminal_policy()),
    {
        let diagnostic = SharedWriter::stderr();
        let terminal = TerminalPolicy::new(capabilities);
        Context {
            output: Output::new(Format::Text).with_notice_writer(diagnostic.clone()),
            diagnostic: Output::new(Format::Text).with_shared_writer(diagnostic),
            terminal,
            interaction: interaction_for(terminal),
        }
    }

    /// The durable output, shared with this context.
    pub fn output(&self) -> (output: Output)
        ensures
            output.message_format() == self.output_policy(),
    {
        self.output.clone()
    }

    pub fn output_format(&self) -> (format: Format)
        ensures
            format == self.output_policy(),
    {
        self.output.format()
    }

    pub fn with_output_format(self, format: Format) -> (context: Self)
        ensures
            context.output_policy() == format,
            context.terminal_policy() == self.terminal_policy(),
    {
        proof {
            use_type_invariant(&self);
        }
        Context { output: self.output.with_format(format), ..self }
    }

    pub fn set_output_format(&mut self, format: Format)
        ensures
            final(self).output_policy() == format,
            final(self).terminal_policy() == old(self).terminal_policy(),
    {
        proof {
            use_type_invariant(&*self);
        }
        self.output = self.output.clone().with_format(format);
    }

    /// The diagnostic output, shared with this context: text messages to
    /// the diagnostic writer.
    pub fn diagnostic(&self) -> (output: Output)
        ensures
            output.result_writer() == self.diagnostic_writer(),
            output.message_format() == Format::Text,
    {
        proof {
            use_type_invariant(self);
        }
        self.diagnostic.clone()
    }

    pub fn terminal(&self) -> (policy: TerminalPolicy)
        ensures
            policy == self.terminal_policy(),
    {
        self.terminal
    }

    pub fn interaction_available(&self) -> (available: bool)
        ensures
            available == policy_interacts(
                self.terminal_policy().detected(),
                self.terminal_policy().interaction_override(),
            ),
    {
        self.terminal.interaction_available()
    }

    pub fn set_terminal_capabilities(&mut self, capabilities: TerminalCapabilities) -> (set: Result<(), Error>)
        ensures
            set is Ok,
            final(self).terminal_policy().detected() == capabilities,
            final(self).terminal_policy().interaction_override() == old(self).terminal_policy().interaction_override(),
            final(self).terminal_policy().status_override() == old(self).terminal_policy().status_override(),
            final(self).output_policy() == old(self).output_policy(),
            final(self).prompt_driver() == driver_for(final(self).terminal_policy()),
    {
        proof {
            use_type_invariant(&*self);
        }
        let mut terminal = self.terminal;
        terminal.set_capabilities(capabilities);
        self.terminal = terminal;
        self.interaction = interaction_for(self.terminal);
        Ok(())
    }

    pub fn set_interaction_mode(&mut self, mode: InteractionMode)
        ensures
            final(self).terminal_policy().detected() == old(self).terminal_policy().detected(),
            final(self).terminal_policy().interaction_override() == mode,
            final(self).terminal_policy().status_override() == old(self).terminal_policy().status_override(),
            final(self).output_policy() == old(self).output_policy(),
            final(self).prompt_driver() == driver_for(final(self).terminal_policy()),
    {
        proof {
            use_type_invariant(&*self);
        }
        let mut terminal = self.terminal;
        terminal.set_interaction_mode(mode);
        self.terminal = terminal;
        self.interaction = interaction_for(self.terminal);
    }

    /// Run prompts through `interaction`, which forces interaction on.
    pub fn set_interaction(&mut self, interaction: Interaction)
        ensures
            final(self).prompt_driver() == interaction.driver_kind(),
            final(self).terminal_policy().interaction_override() == InteractionMode::Force,
            final(self).terminal_policy().detected() == old(self).terminal_policy().detected(),
            final(self).terminal_policy().status_override() == old(self).terminal_policy().status_override(),
            final(self).output_policy() == old(self).output_policy(),
    {
        proof {
            use_type_invariant(&*self);
        }
        let mut terminal = self.terminal;
        terminal.set_interaction_mode(InteractionMode::Force);
        self.terminal = terminal;
        self.interaction = interaction;
    }

    pub fn with_interaction(self, interaction: Interaction) -> (context: Self)
        ensures
            context.prompt_driver() == interaction.driver_kind(),
            context.terminal_policy().interaction_override() == InteractionMode::Force,
            context.terminal_policy().detected() == self.terminal_policy().detected(),
            context.output_policy() == self.output_policy(),
    {
        let mut context = self;
        context.set_interaction(interaction);
        context
    }

    /// A single-choice prompt running through this context's interaction.
    pub fn select<T, I: IntoText>(&self, id: I) -> (prompt: SelectPrompt<T>)
        ensures
            prompt.prompt_id() == id.text_chars(),
            prompt.choice_list().len() == 0,
            prompt.driver() == self.prompt_driver(),
    {
        select(id).interaction(self.interaction.clone())
    }

    /// A multiple-choice prompt running through this context's interaction.
    pub fn multi_select<T, I: IntoText>(&self, id: I) -> (prompt: MultiSelectPrompt<T>)
        ensures
            prompt.prompt_id() == id.text_chars(),
            prompt.choice_list().len() == 0,
            prompt.driver() == self.prompt_driver(),
    {
        multi_select(id).interaction(self.interaction.clone())
    }

    /// A searchable prompt running through this context's interaction.
    pub fn search<T, I: IntoText>(&self, id: I) -> (prompt: SearchPrompt<T>)
        ensures
            prompt.prompt_id() == id.text_chars(),
            prompt.choice_list().len() == 0,
            prompt.driver() == self.prompt_driver(),
    {
        search(id).interaction(self.interaction.clone())
    }

    /// A review prompt running through this context's interaction.
    pub fn review<T, I: IntoText>(&self, id: I) -> (prompt: ReviewPrompt<T>)
        ensures
            prompt.prompt_id() == id.text_chars(),
            prompt.choice_list().len() == 0,
            prompt.driver() == self.prompt_driver(),
    {
        review(id).interaction(self.interaction.clone())
    }

    /// A transient status showing `message`, to start on the application's
    /// status board.
    pub fn status<M: IntoText>(&self, message: M) -> (status: Status)
        ensures
            status.message_text() == message.text_chars(),
            !status.spins(),
            status.frame_rate() == 15,
            status.final_text() is None,
    {
        Status::new(message)
    }

    /// A free-text prompt running through this context's interaction.
    pub fn text<P: IntoText>(&self, prompt: P) -> (built: TextPrompt)
        ensures
            built.prompt_text() == prompt.text_chars(),
            built.driver() == self.prompt_driver(),
    {
        text(prompt).interaction(self.interaction.clone())
    }

    pub fn set_status_mode(&mut self, mode: StatusMode) -> (set: Result<(), Error>)
        ensures
            set is Ok,
            final(self).terminal_policy().detected() == old(self).terminal_policy().detected(),
            final(self).terminal_policy().interaction_override() == old(self).terminal_policy().interaction_override(),
            final(self).terminal_policy().status_override() == mode,
            final(self).output_policy() == old(self).output_policy(),
    {
        proof {
            use_type_invariant(&*self);
        }
        let mut terminal = self.terminal;
        terminal.set_status_mode(mode);
        self.terminal = terminal;
        Ok(())
    }

    pub fn with_output_writer<W: Write + Send + 'static>(self, writer: W) -> (context: Self)
        ensures
            context.output_policy() == self.output_policy(),
            context.terminal_policy() == self.terminal_policy(),
            context.notice_writer() == self.notice_writer(),
            context.diagnostic_writer() == self.diagnostic_writer(),
    {
        proof {
            use_type_invariant(&self);
        }
        Context { output: self.output.with_writer(writer), ..self }
    }

    /// Send diagnostics and notices to `writer`.
    pub fn with_diagnostic_writer<W: Write + Send + 'static>(self, writer: W) -> (context: Self)
        ensures
            context.output_policy() == self.output_policy(),
            context.terminal_policy() == self.terminal_policy(),
            context.prompt_driver() == self.prompt_driver(),
            context.result_writer() == self.result_writer(),
            context.notice_writer() == context.diagnostic_writer(),
    {
        let shared = SharedWriter::new(writer);
        proof {
            use_type_invariant(&self);
        }
        Context {
            output: self.output.with_notice_writer(shared.clone()),
            diagnostic: self.diagnostic.with_shared_writer(shared),
            terminal: self.terminal,
            interaction: self.interaction,
        }
    }

    pub fn with_terminal_capabilities(self, capabilities: TerminalCapabilities) -> (context: Result<Self, Error>)
        ensures
            context matches Ok(c) ==> c.terminal_policy().detected() == capabilities
                && c.terminal_policy().interaction_override() == self.terminal_policy().interaction_override()
                && c.terminal_policy().status_override() == self.terminal_policy().status_override()
                && c.output_policy() == self.output_policy(),
            context is Ok,
    {
        let mut context = self;
        match context.set_terminal_capabilities(capabilities) {
            Ok(()) => Ok(context),
            Err(error) => Err(error),
        }
    }

    pub fn with_interaction_mode(self, mode: InteractionMode) -> (context: Self)
        ensures
            context.terminal_policy().detected() == self.terminal_policy().detected(),
            context.terminal_policy().interaction_override() == mode,
            context.terminal_policy().status_override() == self.terminal_policy().status_override(),
            context.output_policy() == self.output_policy(),
    {
        let mut context = self;
        context.set_interaction_mode(mode);
        context
    }

    pub fn with_status_mode(self, mode: StatusMode) -> (context: Result<Self, Error>)
        ensures
            context matches Ok(c) ==> c.terminal_policy().detected() == self.terminal_policy().detected()
                && c.terminal_policy().interaction_override() == self.terminal_policy().interaction_override()
                && c.terminal_policy().status_override() == mode && c.output_policy() == self.output_policy(),
            context is Ok,
    {
        let mut context = self;
        match context.set_status_mode(mode) {
            Ok(()) => Ok(context),
            Err(error) => Err(error),
        }
    }
}

/// Run an application in `context` on `command`: a deferred result is
/// written when it succeeds and dropped when it fails.
pub fn run_with<C, F: FnOnce(Context, C) -> Result<(), Error>>(
    context: Context,
    command: C,
    f: F,
) -> (result: Result<(), Error>)
    requires
        forall|c: Context, x: C| f.requires((c, x)),
    ensures
        result is Ok ==> f.ensures((context, command), Ok::<(), Error>(())),
        result matches Err(e) ==> f.ensures((context, command), Err::<(), Error>(e)) || (e.error_kind()
            == ErrorKind::Output && f.ensures((context, command), Ok::<(), Error>(()))),
{
    let output = context.output();
    let ghost arguments = (context, command);
    let outcome = f(context, command);
    assert(f.ensures(arguments, outcome));
    match outcome {
        Ok(unit) => {
            assert(outcome == Ok::<(), Error>(unit));
            output.commit()
        },
        Err(error) => {
            output.discard();
            Err(error)
        },
    }
}

/// Where a completed invocation reports.
#[derive(Clone, Copy, Debug, Eq, PartialEq, Structural)]
pub enum CompletionStream {
    Stdout,
    Stderr,
}

/// How an invocation ends: its exit code and what it writes, where.
#[derive(Debug)]
pub struct Completion {
    pub code: u8,
    pub stream: Option<CompletionStream>,
    pub message: Option<String>,
}

/// The end of an invocation whose application ran: success exits with 0,
/// a cancellation with 130, any other error with 1 after `error: ` and the
/// error's text on standard error.
pub fn completion_of(result: Result<(), Error>) -> (completion: Completion)
    ensures
        match result {
            Ok(()) => completion.code == 0 && completion.stream is None && completion.message is None,
            Err(e) => if e.error_kind() == ErrorKind::Cancelled {
                completion.code == 130 && completion.stream is None && completion.message is None
            } else {
                completion.code == 1 && completion.stream == Some(CompletionStream::Stderr)
                    && (completion.message matches Some(m) && m@ == "error: "@ + e.text())
            },
        },
{
    match result {
        Ok(()) => Completion { code: 0, stream: None, message: None },
        Err(error) => {
            if error.kind() == ErrorKind::Cancelled {
                Completion { code: 130, stream: None, message: None }
            } else {
                let mut message = "error: ".to_owned();
                let text = error.to_string();
                crate::text::push_str(&mut message, text.as_str());
                Completion { code: 1, stream: Some(CompletionStream::Stderr), message: Some(message) }
            }
        },
    }
}

/// Why the command line gave no command: a request that ends the
/// invocation early with text to print (help, version), or an error.
#[derive(Debug)]
pub enum ParseFailure {
    EarlyExit(String),
    Invalid(String),
}

/// Complete an invocation: an early exit prints its text and succeeds, a
/// command-line error exits with 2 after `error: ` and its message, and a
/// parsed command runs in `context`, ending as [`completion_of`] says.
pub fn complete<C, F: FnOnce(Context, C) -> Result<(), Error>>(
    parsed: Result<C, ParseFailure>,
    context: Context,
    f: F,
) -> (completion: Completion)
    requires
        forall|c: Context, x: C| f.requires((c, x)),
    ensures
        match parsed {
            Err(ParseFailure::EarlyExit(text)) => completion.code == 0 && completion.stream == Some(CompletionStream::Stdout)
                && (completion.message matches Some(m) && m@ == text@),
            Err(ParseFailure::Invalid(message)) => completion.code == 2 && completion.stream == Some(
                CompletionStream::Stderr,
            ) && (completion.message matches Some(m) && m@ == "error: "@ + message@),
            Ok(_) => completion.code == 0 || completion.code == 1 || completion.code == 130,
        },
{
    match parsed {
        Ok(command) => completion_of(run_with(context, command, f)),
        Err(ParseFailure::EarlyExit(text)) => Completion {
            code: 0,
            stream: Some(CompletionStream::Stdout),
            message: Some(text),
        },
        Err(ParseFailure::Invalid(message)) => {
            let mut text = "error: ".to_owned();
            crate::text::push_str(&mut text, message.as_str());
            Completion { code: 2, stream: Some(CompletionStream::Stderr), message: Some(text) }
        },
    }
}

} // verus!
