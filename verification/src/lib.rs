//! Session core of a smart-card reader tester: text codecs for APDU bytes,
//! the vocabulary of status words, the reader session, the command executor
//! with its history, and the line language that drives them.
//!
//! The library decides and records; it never talks to hardware. A caller
//! hands it what the hardware service answered: the outcome of reaching the
//! service, of probing and opening readers, and, as a function to call, the
//! exchange of bytes with a card or a reader.

pub mod codec;
pub mod commands;
pub mod control;
pub mod display;
pub mod error;
pub mod json;
pub mod number;
pub mod options;
pub mod reader;
pub mod script;
pub mod status;
pub mod text;
pub mod timestamp;

pub use crate::codec::{format_hex, parse_hex};
pub use crate::commands::{CommandExecutor, CommandResult, ControlResult, TransmitResult};
pub use crate::error::Error;
pub use crate::reader::{PcscReader, ReaderInfo};
