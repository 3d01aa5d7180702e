//! The contexts of an interaction, by how far it has been answered: not yet,
//! with a response, or with its response deleted. Each context holds the bot
//! and the interaction; a context moves on once the response it stands for
//! was made, and follow-up messages can be sent once there is a response.

use vstd::prelude::*;

verus! {

/// The context of an autocompletion: the bot and the interaction.
pub struct AutocompleteCtx<B, I> {
    pub bot: B,
    pub interaction: I,
}

/// The context that an autocompletion handler is given: the bot and the
/// interaction.
pub struct AutocompleteContext<B, I> {
    pub bot: B,
    pub interaction: I,
}

/// The context of a slash command that has not been answered yet.
pub struct CommandCtx<B, I> {
    pub bot: B,
    pub interaction: I,
}

/// The context of a slash command that has been answered.
pub struct CommandCtxWithResponse<B, I> {
    pub bot: B,
    pub interaction: I,
}

/// The context of a slash command whose response has been deleted.
pub struct CommandCtxWithDeletedResponse<B, I> {
    pub bot: B,
    pub interaction: I,
}

/// The bot and interaction of a slash command, for sending follow-up messages.
pub struct CommandCtxFollowups<'a, B, I> {
    pub bot: &'a B,
    pub interaction: &'a I,
}

impl<B, I> CommandCtx<B, I> {
    /// The context once the interaction has been answered or deferred.
    pub fn responded(self) -> (r: CommandCtxWithResponse<B, I>)
        ensures
            r.bot == self.bot,
            r.interaction == self.interaction,
    {
        CommandCtxWithResponse { bot: self.bot, interaction: self.interaction }
    }
}

impl<B, I> CommandCtxWithResponse<B, I> {
    /// The context once the response has been deleted.
    pub fn deleted(self) -> (r: CommandCtxWithDeletedResponse<B, I>)
        ensures
            r.bot == self.bot,
            r.interaction == self.interaction,
    {
        CommandCtxWithDeletedResponse { bot: self.bot, interaction: self.interaction }
    }

    /// The bot and interaction, for sending follow-up messages.
    pub fn followups(&self) -> (r: CommandCtxFollowups<'_, B, I>)
        ensures
            *r.bot == self.bot,
            *r.interaction == self.interaction,
    {
        CommandCtxFollowups { bot: &self.bot, interaction: &self.interaction }
    }
}

impl<B, I> CommandCtxWithDeletedResponse<B, I> {
    /// The bot and interaction, for sending follow-up messages.
    pub fn followups(&self) -> (r: CommandCtxFollowups<'_, B, I>)
        ensures
            *r.bot == self.bot,
            *r.interaction == self.interaction,
    {
        CommandCtxFollowups { bot: &self.bot, interaction: &self.interaction }
    }
}

/// The context of a message component that has not been answered yet.
pub struct ComponentCtx<B, I> {
    pub bot: B,
    pub interaction: I,
}

/// The context of a message component that has been answered.
pub struct ComponentCtxWithResponse<B, I> {
    pub bot: B,
    pub interaction: I,
}

/// The context of a message component whose response has been deleted.
pub struct ComponentCtxWithDeletedResponse<B, I> {
    pub bot: B,
    pub interaction: I,
}

/// The bot and interaction of a message component, for sending follow-up messages.
pub struct ComponentCtxFollowups<'a, B, I> {
    pub bot: &'a B,
    pub interaction: &'a I,
}

impl<B, I> ComponentCtx<B, I> {
    /// The context once the interaction has been answered or deferred.
    pub fn responded(self) -> (r: ComponentCtxWithResponse<B, I>)
        ensures
            r.bot == self.bot,
            r.interaction == self.interaction,
    {
        ComponentCtxWithResponse { bot: self.bot, interaction: self.interaction }
    }
}

impl<B, I> ComponentCtxWithResponse<B, I> {
    /// The context once the response has been deleted.
    pub fn deleted(self) -> (r: ComponentCtxWithDeletedResponse<B, I>)
        ensures
            r.bot == self.bot,
            r.interaction == self.interaction,
    {
        ComponentCtxWithDeletedResponse { bot: self.bot, interaction: self.interaction }
    }

    /// The bot and interaction, for sending follow-up messages.
    pub fn followups(&self) -> (r: ComponentCtxFollowups<'_, B, I>)
        ensures
            *r.bot == self.bot,
            *r.interaction == self.interaction,
    {
        ComponentCtxFollowups { bot: &self.bot, interaction: &self.interaction }
    }
}

impl<B, I> ComponentCtxWithDeletedResponse<B, I> {
    /// The bot and interaction, for sending follow-up messages.
    pub fn followups(&self) -> (r: ComponentCtxFollowups<'_, B, I>)
        ensures
            *r.bot == self.bot,
            *r.interaction == self.interaction,
    {
        ComponentCtxFollowups { bot: &self.bot, interaction: &self.interaction }
    }
}

/// The context of a modal submission that has not been answered yet.
pub struct ModalCtx<B, I> {
    pub bot: B,
    pub interaction: I,
}

/// The context of a modal submission that has been answered.
pub struct ModalCtxWithResponse<B, I> {
    pub bot: B,
    pub interaction: I,
}

/// The context of a modal submission whose response has been deleted.
pub struct ModalCtxWithDeletedResponse<B, I> {
    pub bot: B,
    pub interaction: I,
}

/// The bot and interaction of a modal submission, for sending follow-up messages.
pub struct ModalCtxFollowups<'a, B, I> {
    pub bot: &'a B,
    pub interaction: &'a I,
}

impl<B, I> ModalCtx<B, I> {
    /// The context once the interaction has been answered or deferred.
    pub fn responded(self) -> (r: ModalCtxWithResponse<B, I>)
        ensures
            r.bot == self.bot,
            r.interaction == self.interaction,
    {
        ModalCtxWithResponse { bot: self.bot, interaction: self.interaction }
    }
}

impl<B, I> ModalCtxWithResponse<B, I> {
    /// The context once the response has been deleted.
    pub fn deleted(self) -> (r: ModalCtxWithDeletedResponse<B, I>)
        ensures
            r.bot == self.bot,
            r.interaction == self.interaction,
    {
        ModalCtxWithDeletedResponse { bot: self.bot, interaction: self.interaction }
    }

    /// The bot and interaction, for sending follow-up messages.
    pub fn followups(&self) -> (r: ModalCtxFollowups<'_, B, I>)
        ensures
            *r.bot == self.bot,
            *r.interaction == self.interaction,
    {
        ModalCtxFollowups { bot: &self.bot, interaction: &self.interaction }
    }
}

impl<B, I> ModalCtxWithDeletedResponse<B, I> {
    /// The bot and interaction, for sending follow-up messages.
    pub fn followups(&self) -> (r: ModalCtxFollowups<'_, B, I>)
        ensures
            *r.bot == self.bot,
            *r.interaction == self.interaction,
    {
        ModalCtxFollowups { bot: &self.bot, interaction: &self.interaction }
    }
}

} // verus!
