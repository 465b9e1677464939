//! The messages that reach the renderer from the chat bot and from the host.

use vstd::prelude::*;
use crate::terminal::Cell;

verus! {

/// A request from the chat bot: draw `emote` over the text `regexish`.
#[derive(Clone, Debug, PartialEq, Eq)]
pub struct BotMessage {
    /// Who asked for the emote.
    pub username: String,
    /// The text on screen to draw over, matched exactly.
    pub regexish: String,
    /// The emote's text code.
    pub emote: String,
}

/// A message from the host terminal. The host may add kinds of message; those
/// arrive as `Unhandled` and change nothing.
#[derive(Debug)]
pub enum HostMessage {
    /// The whole current screen.
    TerminalUpdate {
        /// Columns and rows.
        size: (u16, u16),
        /// The cells that are not blank.
        cells: Vec<Cell>,
        /// Column and row of the cursor.
        cursor: (u16, u16),
    },
    /// The terminal now has another size; the next update carries it.
    TerminalResize {
        width: u16,
        height: u16,
    },
    /// A kind of message that this renderer does not know.
    Unhandled,
}

} // verus!
