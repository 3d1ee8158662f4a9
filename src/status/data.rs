//! The server state that a status reply describes.
//!
//! The reply carries this as JSON; the caller decodes it and builds these
//! values.

use vstd::prelude::*;

verus! {

/// A JSON value, carried as the server sent it.
#[verifier::external_type_specification]
#[verifier::external_body]
pub struct ExJsonValue(serde_json::Value);

/// The state of a server, as its status reply gives it.
#[derive(Debug)]
pub struct StatusResponse {
    /// The game and protocol version.
    pub version: Version,
    /// The players on the server.
    pub players: Players,
    /// The message shown in the server list (the "description" field).
    pub motd: ChatObject,
    /// The URI of the server's icon.
    pub favicon: Option<String>,
    /// Whether the server previews chat.
    pub previews_chat: Option<bool>,
    /// Whether the server requires signed chat messages.
    pub enforces_secure_chat: Option<bool>,
}

/// The players on a server.
#[derive(Debug)]
pub struct Players {
    /// The most players the server allows.
    pub max: u32,
    /// The number of players online.
    pub online: u32,
    /// Some of the players online.
    pub sample: Option<Vec<Sample>>,
}

/// A player listed in a status reply.
#[derive(Debug)]
pub struct Sample {
    /// The player's name.
    pub name: String,
    /// The player's UUID.
    pub id: String,
}

/// The version a server runs.
#[derive(Debug)]
pub struct Version {
    /// The game version, such as "1.19.1".
    pub name: String,
    /// The protocol version number.
    pub protocol: u64,
}

/// Formatted chat text.
#[derive(Debug)]
pub enum ChatObject {
    /// One component.
    Object(ChatComponentObject),
    /// Several chat objects.
    Array(Vec<ChatObject>),
    /// Any other JSON value, kept as it came.
    JsonPrimitive(serde_json::Value),
}

/// One component of formatted chat text.
#[derive(Debug)]
pub struct ChatComponentObject {
    /// The text.
    pub text: Option<String>,
    /// A translation key.
    pub translate: Option<String>,
    /// A key binding to show.
    pub keybind: Option<String>,
    /// Whether the text is bold.
    pub bold: Option<bool>,
    /// Whether the text is italic.
    pub italic: Option<bool>,
    /// Whether the text is underlined.
    pub underlined: Option<bool>,
    /// Whether the text is struck through.
    pub strikethrough: Option<bool>,
    /// Whether the text is obfuscated.
    pub obfuscated: Option<bool>,
    /// The font.
    pub font: Option<String>,
    /// The colour.
    pub color: Option<String>,
    /// Text inserted into the chat box on shift-click.
    pub insertion: Option<String>,
    /// What a click on the text does.
    pub click_event: Option<ChatClickEvent>,
    /// What hovering over the text shows.
    pub hover_event: Option<ChatHoverEvent>,
    /// Sibling components.
    pub extra: Option<Vec<ChatObject>>,
}

/// What a click on chat text does.
#[derive(Debug)]
pub struct ChatClickEvent {
    /// Opens a URL.
    pub open_url: Option<String>,
    /// Runs a command.
    pub run_command: Option<String>,
    /// Puts text into the chat box.
    pub suggest_command: Option<String>,
    /// Copies text to the clipboard.
    pub copy_to_clipboard: Option<String>,
}

/// What hovering over chat text shows.
#[derive(Debug)]
pub struct ChatHoverEvent {
    /// Text to show.
    pub show_text: Option<Box<ChatObject>>,
    /// Text to show, on servers before 1.16.
    pub value: Option<Box<ChatObject>>,
    /// An item, as NBT.
    pub show_item: Option<String>,
    /// An entity, as NBT.
    pub show_entity: Option<String>,
}

} // verus!
