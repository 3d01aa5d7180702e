//! A framework for Discord bots: command maps, localization, custom ids,
//! option resolution and component builders, with their behaviour stated
//! and proved.

pub mod text;
pub mod locale;
pub mod assoc;
pub mod command;
pub mod command_laws;
pub mod custom_id;
pub mod button;
pub mod select_menu;
pub mod modal;
pub mod l10n;
pub mod doc_comment;
pub mod command_derive;
pub mod bot;
pub mod option;
pub mod interaction;
pub mod resolve;
pub mod utils;
pub mod context;
