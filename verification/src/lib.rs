//! Pianobar event notifications: classifying the event command, reading the
//! event info text, and the wire form in which an event travels from the
//! short-lived client to the listening server.
//!
//! - `eventcmd`: the event commands and their tokens.
//! - `info`: the event info text and the record it stands for.
//! - `event` and `wire`: an event, and its wire form as text and as bytes.
//! - `server`: the decisions of the listening server.
//! - `text`, `decimal` and `json`: the reading and writing of characters
//!   underneath.

pub mod decimal;
pub mod event;
pub mod eventcmd;
pub mod info;
pub mod json;
pub mod server;
pub mod text;
pub mod wire;

pub use crate::event::Event;
pub use crate::eventcmd::{EventCmd, ParseEventCmdError};
pub use crate::info::{CurlStatus, Info, ParseInfoError, PianobarStatus, Song};
pub use crate::server::{Outcome, Report, ServerState, Work};
pub use crate::wire::DecodeError;
