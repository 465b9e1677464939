//! Emote overlay rendering for a terminal: a snapshot of the terminal's text,
//! the emotes that chat asked for, and the pixels that draw them; and the
//! chat bot's reading of commands and its canned replies.

pub mod bitmap;
pub mod bot;
pub mod catalog;
pub mod compositor;
pub mod plugin;
pub mod protocol;
pub mod registry;
pub mod terminal;

pub use bot::{AchievementKind, Command, Config};
pub use bitmap::{Bitmap, EmoteError};
pub use catalog::EmoteCatalog;
pub use compositor::Pixel;
pub use plugin::Plugin;
pub use protocol::{BotMessage, HostMessage};
pub use registry::{ActiveEmote, EmoteRegistry};
pub use terminal::{Cell, TerminalSnapshot};
