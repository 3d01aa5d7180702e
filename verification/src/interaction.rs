//! How the framework answers the interactions that Discord sends it, and the
//! errors of handling them.

use vstd::prelude::*;

verus! {

/// The framework that handles a bot's interactions.
#[derive(Debug)]
pub struct Tranquil {}

impl Tranquil {
    /// A framework without commands.
    pub fn new() -> (r: Tranquil)
        ensures
            r == (Tranquil {}),
    {
        Tranquil {}
    }
}

/// The kind of an interaction that Discord sends.
#[derive(Clone, Copy, Debug, PartialEq, Eq, Structural)]
pub enum InteractionKind {
    Ping,
    Command,
    Autocomplete,
    Component,
    Modal,
}

/// An event that the framework is dispatched.
#[derive(Clone, Copy, Debug, PartialEq, Eq, Structural)]
pub enum FrameworkEvent {
    /// The bot connected.
    Ready,
    /// An interaction was created.
    InteractionCreate(InteractionKind),
    /// Any other event.
    Other,
}

/// Why a command or autocomplete interaction failed.
#[derive(Clone, Copy, Debug, PartialEq, Eq, Structural)]
pub enum CommandInteractionError {
    FooBar,
}

impl CommandInteractionError {
    /// The message of this error.
    pub fn message(&self) -> (r: &'static str)
        ensures
            r@ == "foo bar"@,
    {
        "foo bar"
    }
}

/// Why an interaction failed. Component and modal interactions cannot fail,
/// so only command interactions have errors.
#[derive(Clone, Copy, Debug, PartialEq, Eq, Structural)]
pub enum InteractionError {
    Command(CommandInteractionError),
}

/// What handling an interaction of kind `kind` gives: commands and
/// autocompletion are not handled yet and fail; components and modals
/// succeed; pings are ignored.
pub open spec fn interaction_outcome(kind: InteractionKind) -> Result<(), InteractionError> {
    match kind {
        InteractionKind::Command | InteractionKind::Autocomplete => Err(
            InteractionError::Command(CommandInteractionError::FooBar),
        ),
        _ => Ok(()),
    }
}

impl Tranquil {
    /// Handles an interaction of kind `kind`.
    pub fn interaction(&self, kind: InteractionKind) -> (r: Result<(), InteractionError>)
        ensures
            r == interaction_outcome(kind),
    {
        match kind {
            InteractionKind::Command => self.command_interaction(false).map_err(
                |e: CommandInteractionError| InteractionError::Command(e),
            ),
            InteractionKind::Autocomplete => self.command_interaction(true).map_err(
                |e: CommandInteractionError| InteractionError::Command(e),
            ),
            InteractionKind::Component => Ok(()),
            InteractionKind::Modal => Ok(()),
            InteractionKind::Ping => Ok(()),
        }
    }

    /// Handles a command interaction, or its autocompletion.
    fn command_interaction(&self, autocomplete: bool) -> (r: Result<(), CommandInteractionError>)
        ensures
            r == Err::<(), CommandInteractionError>(CommandInteractionError::FooBar),
    {
        Err(CommandInteractionError::FooBar)
    }

    /// Dispatches an event: an interaction is handled, and what came of it
    /// is returned; other events give nothing to report.
    pub fn dispatch(&self, event: FrameworkEvent) -> (r: Option<Result<(), InteractionError>>)
        ensures
            r == match event {
                FrameworkEvent::InteractionCreate(kind) => Some(interaction_outcome(kind)),
                _ => None::<Result<(), InteractionError>>,
            },
    {
        match event {
            FrameworkEvent::Ready => None,
            FrameworkEvent::InteractionCreate(kind) => Some(self.interaction(kind)),
            FrameworkEvent::Other => None,
        }
    }
}

/// Why the autocompletion of a command could not be resolved.
#[derive(Clone, Copy, Debug, PartialEq, Eq, Structural)]
pub enum AutocompleteResolveError {
    NoAutocomplete,
}

impl AutocompleteResolveError {
    /// The message of this error.
    pub fn message(&self) -> (r: &'static str)
        ensures
            r@ == "the command does not support autocompletion"@,
    {
        "the command does not support autocompletion"
    }
}

} // verus!
