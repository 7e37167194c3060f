//! The failures that the session core reports.

use vstd::prelude::*;
use crate::text::{decimal, push_decimal, push_text};

verus! {

/// Why a connection to a reader could not be opened.
#[derive(Debug, Clone, PartialEq, Eq)]
pub enum ConnectFailure {
    /// The reader holds no card.
    NoCard,
    /// No reader of that name is attached.
    NotFound,
    /// Any other answer of the hardware service, in its own words.
    Other(String),
}

/// A failure of the session core.
#[derive(Debug, Clone, PartialEq, Eq)]
pub enum Error {
    /// The text is not hexadecimal; holds the offending input.
    InvalidHex(String),
    /// The text is no control code; holds the offending input.
    InvalidControlCode(String),
    /// An APDU decoded to no bytes at all.
    EmptyCommand,
    /// A command was issued without a live connection.
    NotConnected,
    /// A reader was selected by an index beyond the last listing.
    IndexOutOfRange { index: usize, count: usize },
    /// The hardware service could not be reached; holds its reason.
    ServiceUnavailable(String),
    /// The connection could not be opened.
    ConnectError(ConnectFailure),
    /// The transport failed while transmitting; holds its reason.
    TransmitFailed(String),
    /// The transport failed on a control command; holds its reason.
    ControlFailed(String),
    /// A line began with a word that is no command; holds the word.
    UnknownCommand(String),
    /// A command line lacked a required argument; holds the command.
    MissingArgument(String),
    /// Imported history text was not a list of complete records.
    MalformedHistory(String),
}

/// The message of a connection failure.
pub open spec fn connect_failure_text(f: ConnectFailure) -> Seq<char> {
    match f {
        ConnectFailure::NoCard => "No card present"@,
        ConnectFailure::NotFound => "Reader not found"@,
        ConnectFailure::Other(reason) => reason@,
    }
}

/// The message of a failure, as shown to the operator.
pub open spec fn error_text(e: Error) -> Seq<char> {
    match e {
        Error::InvalidHex(input) => "Invalid hex string: '"@ + input@ + "'"@,
        Error::InvalidControlCode(input) => "Invalid control code: '"@ + input@ + "'"@,
        Error::EmptyCommand => "APDU cannot be empty"@,
        Error::NotConnected => "No card connected"@,
        Error::IndexOutOfRange { index, count } => "Reader index "@ + decimal(index as nat)
            + " out of range ("@ + decimal(count as nat) + " readers listed)"@,
        Error::ServiceUnavailable(reason) => "Failed to establish PCSC context: "@ + reason@,
        Error::ConnectError(failure) => "Failed to connect to reader: "@ + connect_failure_text(
            failure,
        ),
        Error::TransmitFailed(reason) => "Transmit failed: "@ + reason@,
        Error::ControlFailed(reason) => "Control command failed: "@ + reason@,
        Error::UnknownCommand(word) => "Unknown command: "@ + word@,
        Error::MissingArgument(command) => "Missing argument for "@ + command@,
        Error::MalformedHistory(reason) => "Failed to deserialize command history: "@ + reason@,
    }
}

impl ConnectFailure {
    /// The message of this failure.
    pub fn message(&self) -> (s: String)
        ensures
            s@ == connect_failure_text(*self),
    {
        let mut s = String::new();
        match self {
            ConnectFailure::NoCard => push_text(&mut s, "No card present"),
            ConnectFailure::NotFound => push_text(&mut s, "Reader not found"),
            ConnectFailure::Other(reason) => push_text(&mut s, reason.as_str()),
        }
        s
    }
}

impl Error {
    /// The message of this failure, as shown to the operator.
    pub fn message(&self) -> (s: String)
        ensures
            s@ == error_text(*self),
    {
        let mut s = String::new();
        match self {
            Error::InvalidHex(input) => {
                push_text(&mut s, "Invalid hex string: '");
                push_text(&mut s, input.as_str());
                push_text(&mut s, "'");
            },
            Error::InvalidControlCode(input) => {
                push_text(&mut s, "Invalid control code: '");
                push_text(&mut s, input.as_str());
                push_text(&mut s, "'");
            },
            Error::EmptyCommand => push_text(&mut s, "APDU cannot be empty"),
            Error::NotConnected => push_text(&mut s, "No card connected"),
            Error::IndexOutOfRange { index, count } => {
                push_text(&mut s, "Reader index ");
                push_decimal(&mut s, *index as u64);
                push_text(&mut s, " out of range (");
                push_decimal(&mut s, *count as u64);
                push_text(&mut s, " readers listed)");
            },
            Error::ServiceUnavailable(reason) => {
                push_text(&mut s, "Failed to establish PCSC context: ");
                push_text(&mut s, reason.as_str());
            },
            Error::ConnectError(failure) => {
                push_text(&mut s, "Failed to connect to reader: ");
                let detail = failure.message();
                push_text(&mut s, detail.as_str());
            },
            Error::TransmitFailed(reason) => {
                push_text(&mut s, "Transmit failed: ");
                push_text(&mut s, reason.as_str());
            },
            Error::ControlFailed(reason) => {
                push_text(&mut s, "Control command failed: ");
                push_text(&mut s, reason.as_str());
            },
            Error::UnknownCommand(word) => {
                push_text(&mut s, "Unknown command: ");
                push_text(&mut s, word.as_str());
            },
            Error::MissingArgument(command) => {
                push_text(&mut s, "Missing argument for ");
                push_text(&mut s, command.as_str());
            },
            Error::MalformedHistory(reason) => {
                push_text(&mut s, "Failed to deserialize command history: ");
                push_text(&mut s, reason.as_str());
            },
        }
        s
    }
}

} // verus!
