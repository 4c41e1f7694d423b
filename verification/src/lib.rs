//! Command logic of a Discord guild bot: emoji uploads, role and voice
//! commands, the usage counter behind `~commands`, and the replies the bot
//! sends.

pub mod counter;
pub mod emoji;
pub mod encoding;
pub mod hooks;
pub mod music;
pub mod reply;
pub mod roles;
pub mod text;
pub mod util;
pub mod voice;
