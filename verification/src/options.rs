//! The choices an operator makes on the command line: how a connection is
//! shared and how a response is shown.

use vstd::prelude::*;
use crate::reader::ShareMode;
use crate::text::{owned, push_text, range_is_word, to_ascii_lower, to_chars};

verus! {

/// The share mode as the operator names it.
#[derive(Debug, Clone, Copy, PartialEq, Eq, Structural)]
pub enum ShareModeArg {
    Shared,
    Exclusive,
    Direct,
}

/// The way a response is shown.
#[derive(Debug, Clone, Copy, PartialEq, Eq, Structural)]
pub enum ResponseFormat {
    /// Digit pairs without separators.
    Hex,
    /// Digit pairs with spaces.
    HexSpaced,
    /// A dump with offsets and an ASCII column.
    HexDump,
    /// ASCII, with dots for what cannot be shown.
    Ascii,
    /// Digit pairs, ASCII and, for longer responses, a dump.
    All,
}

/// The share mode that `text` names, whatever the case of its ASCII letters.
pub open spec fn share_mode_named(text: Seq<char>) -> Option<ShareModeArg> {
    let word = to_ascii_lower(text);
    if word == "shared"@ {
        Some(ShareModeArg::Shared)
    } else if word == "exclusive"@ {
        Some(ShareModeArg::Exclusive)
    } else if word == "direct"@ {
        Some(ShareModeArg::Direct)
    } else {
        None
    }
}

/// The format that `text` names, whatever the case of its ASCII letters.
pub open spec fn response_format_named(text: Seq<char>) -> Option<ResponseFormat> {
    let word = to_ascii_lower(text);
    if word == "hex"@ {
        Some(ResponseFormat::Hex)
    } else if word == "spaced"@ {
        Some(ResponseFormat::HexSpaced)
    } else if word == "dump"@ {
        Some(ResponseFormat::HexDump)
    } else if word == "ascii"@ {
        Some(ResponseFormat::Ascii)
    } else if word == "all"@ {
        Some(ResponseFormat::All)
    } else {
        None
    }
}

/// The message `head` followed by `text`.
fn refusal(head: &str, text: &str) -> (s: String)
    ensures
        s@ == head@ + text@,
{
    let mut s = owned(head);
    push_text(&mut s, text);
    s
}

impl ShareModeArg {
    /// Reads a share mode: `shared`, `exclusive` or `direct`. Any other
    /// text is refused with a message that names it.
    pub fn parse(s: &str) -> (r: Result<ShareModeArg, String>)
        ensures
            match share_mode_named(s@) {
                Some(mode) => r == Ok::<ShareModeArg, String>(mode),
                None => r matches Err(message) && message@ == "Invalid share mode: "@ + s@,
            },
    {
        let chars = to_chars(s);
        let n = chars.len();
        assert(chars@.subrange(0, n as int) == chars@);
        if range_is_word(&chars, 0, n, "shared") {
            Ok(ShareModeArg::Shared)
        } else if range_is_word(&chars, 0, n, "exclusive") {
            Ok(ShareModeArg::Exclusive)
        } else if range_is_word(&chars, 0, n, "direct") {
            Ok(ShareModeArg::Direct)
        } else {
            Err(refusal("Invalid share mode: ", s))
        }
    }

    /// The share mode of a connection that this choice stands for.
    pub fn share_mode(self) -> (mode: ShareMode)
        ensures
            mode == share_mode_of(self),
    {
        match self {
            ShareModeArg::Shared => ShareMode::Shared,
            ShareModeArg::Exclusive => ShareMode::Exclusive,
            ShareModeArg::Direct => ShareMode::Direct,
        }
    }
}

/// The share mode of a connection that the operator's choice stands for.
pub open spec fn share_mode_of(arg: ShareModeArg) -> ShareMode {
    match arg {
        ShareModeArg::Shared => ShareMode::Shared,
        ShareModeArg::Exclusive => ShareMode::Exclusive,
        ShareModeArg::Direct => ShareMode::Direct,
    }
}

impl std::str::FromStr for ShareModeArg {
    type Err = String;

    /// Reads a share mode as `ShareModeArg::parse` does.
    fn from_str(s: &str) -> (r: Result<Self, String>)
        ensures
            match share_mode_named(s@) {
                Some(mode) => r == Ok::<ShareModeArg, String>(mode),
                None => r matches Err(message) && message@ == "Invalid share mode: "@ + s@,
            },
    {
        ShareModeArg::parse(s)
    }
}

impl From<ShareModeArg> for ShareMode {
    fn from(mode: ShareModeArg) -> (r: ShareMode) {
        mode.share_mode()
    }
}

impl vstd::std_specs::convert::FromSpecImpl<ShareModeArg> for ShareMode {
    open spec fn obeys_from_spec() -> bool {
        true
    }

    open spec fn from_spec(mode: ShareModeArg) -> ShareMode {
        share_mode_of(mode)
    }
}

impl ResponseFormat {
    /// Reads a format: `hex`, `spaced`, `dump`, `ascii` or `all`. Any other
    /// text is refused with a message that names it.
    pub fn parse(s: &str) -> (r: Result<ResponseFormat, String>)
        ensures
            match response_format_named(s@) {
                Some(format) => r == Ok::<ResponseFormat, String>(format),
                None => r matches Err(message) && message@ == "Invalid format: "@ + s@,
            },
    {
        let chars = to_chars(s);
        let n = chars.len();
        assert(chars@.subrange(0, n as int) == chars@);
        if range_is_word(&chars, 0, n, "hex") {
            Ok(ResponseFormat::Hex)
        } else if range_is_word(&chars, 0, n, "spaced") {
            Ok(ResponseFormat::HexSpaced)
        } else if range_is_word(&chars, 0, n, "dump") {
            Ok(ResponseFormat::HexDump)
        } else if range_is_word(&chars, 0, n, "ascii") {
            Ok(ResponseFormat::Ascii)
        } else if range_is_word(&chars, 0, n, "all") {
            Ok(ResponseFormat::All)
        } else {
            Err(refusal("Invalid format: ", s))
        }
    }
}

impl std::str::FromStr for ResponseFormat {
    type Err = String;

    /// Reads a format as `ResponseFormat::parse` does.
    fn from_str(s: &str) -> (r: Result<Self, String>)
        ensures
            match response_format_named(s@) {
                Some(format) => r == Ok::<ResponseFormat, String>(format),
                None => r matches Err(message) && message@ == "Invalid format: "@ + s@,
            },
    {
        ResponseFormat::parse(s)
    }
}

} // verus!
