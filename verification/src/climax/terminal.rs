//! Terminal capabilities observed by the application facade and the policy
//! that decides interaction and status presentation from them.

use vstd::prelude::*;

verus! {

/// How prompt interaction uses the detected capabilities.
#[derive(Clone, Copy, Debug, Eq, PartialEq, Structural)]
pub enum InteractionMode {
    /// Interact only when input and the transient stream are suitable
    /// terminals.
    Auto,
    /// Attempt interaction whatever was detected.
    Force,
    /// Reject every interactive prompt without touching the terminal.
    Disabled,
}

impl Default for InteractionMode {
    fn default() -> (mode: Self)
        ensures
            mode == InteractionMode::Auto,
    {
        InteractionMode::Auto
    }
}

/// How transient status presentation behaves.
#[derive(Clone, Copy, Debug, Eq, PartialEq, Structural)]
pub enum StatusMode {
    /// Animate on a suitable terminal and otherwise stay silent.
    Auto,
    /// Animate whatever was detected.
    Live,
    /// Emit one plain status line when an operation finishes.
    Plain,
    /// Render no status output.
    Silent,
}

impl Default for StatusMode {
    fn default() -> (mode: Self)
        ensures
            mode == StatusMode::Auto,
    {
        StatusMode::Auto
    }
}

/// Terminal facts observed for the process.
#[derive(Clone, Copy, Debug, Eq, PartialEq, Structural)]
pub struct TerminalCapabilities {
    input_terminal: bool,
    transient_terminal: bool,
    ansi: bool,
}

impl TerminalCapabilities {
    pub closed spec fn has_input_terminal(self) -> bool {
        self.input_terminal
    }

    pub closed spec fn has_transient_terminal(self) -> bool {
        self.transient_terminal
    }

    pub closed spec fn has_ansi(self) -> bool {
        self.ansi
    }

    /// Interaction needs a terminal on input and on the transient stream,
    /// and ANSI control sequences.
    pub open spec fn can_interact(self) -> bool {
        self.has_input_terminal() && self.has_transient_terminal() && self.has_ansi()
    }

    /// A live status needs a transient terminal with ANSI control sequences.
    pub open spec fn can_show_live_status(self) -> bool {
        self.has_transient_terminal() && self.has_ansi()
    }

    pub fn new(input_terminal: bool, transient_terminal: bool, ansi: bool) -> (capabilities: Self)
        ensures
            capabilities.has_input_terminal() == input_terminal,
            capabilities.has_transient_terminal() == transient_terminal,
            capabilities.has_ansi() == ansi,
    {
        TerminalCapabilities { input_terminal, transient_terminal, ansi }
    }

    pub fn input_terminal(self) -> (is_terminal: bool)
        ensures
            is_terminal == self.has_input_terminal(),
    {
        self.input_terminal
    }

    pub fn transient_terminal(self) -> (is_terminal: bool)
        ensures
            is_terminal == self.has_transient_terminal(),
    {
        self.transient_terminal
    }

    pub fn ansi(self) -> (ansi: bool)
        ensures
            ansi == self.has_ansi(),
    {
        self.ansi
    }

    pub fn interaction_available(self) -> (available: bool)
        ensures
            available == self.can_interact(),
    {
        self.input_terminal && self.transient_terminal && self.ansi
    }

    pub fn live_status_available(self) -> (available: bool)
        ensures
            available == self.can_show_live_status(),
    {
        self.transient_terminal && self.ansi
    }
}

/// Whether a policy lets prompts interact: as detected under `Auto`,
/// always under `Force`, never under `Disabled`.
pub open spec fn policy_interacts(capabilities: TerminalCapabilities, mode: InteractionMode) -> bool {
    match mode {
        InteractionMode::Auto => capabilities.can_interact(),
        InteractionMode::Force => true,
        InteractionMode::Disabled => false,
    }
}

/// The status mode a policy resolves to: `Auto` becomes `Live` where a live
/// status can be shown and `Silent` elsewhere; any other mode stays.
pub open spec fn resolved_status(capabilities: TerminalCapabilities, mode: StatusMode) -> StatusMode {
    match mode {
        StatusMode::Auto => if capabilities.can_show_live_status() {
            StatusMode::Live
        } else {
            StatusMode::Silent
        },
        other => other,
    }
}

/// Terminal capabilities and the overrides applied to them.
#[derive(Clone, Copy, Debug, Eq, PartialEq, Structural)]
pub struct TerminalPolicy {
    capabilities: TerminalCapabilities,
    interaction: InteractionMode,
    status: StatusMode,
}

impl TerminalPolicy {
    pub closed spec fn detected(self) -> TerminalCapabilities {
        self.capabilities
    }

    pub closed spec fn interaction_override(self) -> InteractionMode {
        self.interaction
    }

    pub closed spec fn status_override(self) -> StatusMode {
        self.status
    }

    /// The policy of a process with these capabilities and no overrides.
    pub fn new(capabilities: TerminalCapabilities) -> (policy: Self)
        ensures
            policy.detected() == capabilities,
            policy.interaction_override() == InteractionMode::Auto,
            policy.status_override() == StatusMode::Auto,
    {
        TerminalPolicy { capabilities, interaction: InteractionMode::Auto, status: StatusMode::Auto }
    }

    pub fn capabilities(self) -> (capabilities: TerminalCapabilities)
        ensures
            capabilities == self.detected(),
    {
        self.capabilities
    }

    pub fn interaction_mode(self) -> (mode: InteractionMode)
        ensures
            mode == self.interaction_override(),
    {
        self.interaction
    }

    pub fn status_mode(self) -> (mode: StatusMode)
        ensures
            mode == self.status_override(),
    {
        self.status
    }

    pub fn interaction_available(self) -> (available: bool)
        ensures
            available == policy_interacts(self.detected(), self.interaction_override()),
    {
        match self.interaction {
            InteractionMode::Auto => self.capabilities.interaction_available(),
            InteractionMode::Force => true,
            InteractionMode::Disabled => false,
        }
    }

    pub fn effective_status_mode(self) -> (mode: StatusMode)
        ensures
            mode == resolved_status(self.detected(), self.status_override()),
    {
        match self.status {
            StatusMode::Auto => if self.capabilities.live_status_available() {
                StatusMode::Live
            } else {
                StatusMode::Silent
            },
            other => other,
        }
    }

    pub fn set_capabilities(&mut self, capabilities: TerminalCapabilities)
        ensures
            final(self).detected() == capabilities,
            final(self).interaction_override() == old(self).interaction_override(),
            final(self).status_override() == old(self).status_override(),
    {
        self.capabilities = capabilities;
    }

    pub fn set_interaction_mode(&mut self, interaction: InteractionMode)
        ensures
            final(self).detected() == old(self).detected(),
            final(self).interaction_override() == interaction,
            final(self).status_override() == old(self).status_override(),
    {
        self.interaction = interaction;
    }

    pub fn set_status_mode(&mut self, status: StatusMode)
        ensures
            final(self).detected() == old(self).detected(),
            final(self).interaction_override() == old(self).interaction_override(),
            final(self).status_override() == status,
    {
        self.status = status;
    }
}

/// An explicit interaction or status mode decides whatever was detected:
/// `Force` always interacts, `Disabled` never does, and a status mode other
/// than `Auto` is kept as it is.
pub proof fn law_explicit_modes_override_detection(
    first: TerminalCapabilities,
    second: TerminalCapabilities,
    status: StatusMode,
)
    requires
        status != StatusMode::Auto,
    ensures
        policy_interacts(first, InteractionMode::Force),
        !policy_interacts(first, InteractionMode::Disabled),
        policy_interacts(first, InteractionMode::Force) == policy_interacts(second, InteractionMode::Force),
        resolved_status(first, status) == status,
        resolved_status(first, status) == resolved_status(second, status),
{
}

} // verus!
