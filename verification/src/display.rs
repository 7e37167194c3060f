//! The lines that a front end shows: responses, the reader listing, and the
//! entries of the history.

use vstd::prelude::*;
use crate::codec::{
    format_ascii, format_ascii_spec, format_hex, format_hex_dump, format_hex_dump_spec,
    format_hex_spaced, format_hex_spaced_spec, format_hex_spec,
};
use crate::commands::{CommandResult, CommandResultView, CommandType};
use crate::options::ResponseFormat;
use crate::reader::{ReaderInfo, ReaderInfoView};
use crate::text::{
    decimal, owned, push_decimal, push_line, push_text, push_upper_hex, text_views, upper_hex,
};

verus! {

/// The lines that show the response `data` in the way `format`.
pub open spec fn response_lines(data: Seq<u8>, format: ResponseFormat) -> Seq<Seq<char>> {
    if data.len() == 0 {
        seq!["Response: (empty)"@]
    } else {
        match format {
            ResponseFormat::Hex => seq!["Response: "@ + format_hex_spec(data)],
            ResponseFormat::HexSpaced => seq!["Response: "@ + format_hex_spaced_spec(data)],
            ResponseFormat::HexDump => seq!["Response:"@, format_hex_dump_spec(data)],
            ResponseFormat::Ascii => seq!["Response (ASCII): "@ + format_ascii_spec(data)],
            ResponseFormat::All => {
                let both = seq![
                    "Response (Hex): "@ + format_hex_spaced_spec(data),
                    "Response (ASCII): "@ + format_ascii_spec(data),
                ];
                if data.len() > 16 {
                    both + seq!["Response (Dump):"@, format_hex_dump_spec(data)]
                } else {
                    both
                }
            },
        }
    }
}

/// The line `label` followed by `text`.
fn labelled(label: &str, text: String) -> (s: String)
    ensures
        s@ == label@ + text@,
{
    let mut s = owned(label);
    push_text(&mut s, text.as_str());
    s
}

/// Shows a response in the chosen format. A response without bytes is shown
/// as empty in every format; the format `All` adds a dump for responses of
/// more than sixteen bytes.
pub fn render_response(data: &[u8], format: ResponseFormat) -> (lines: Vec<String>)
    ensures
        text_views(lines@) == response_lines(data@, format),
{
    let mut lines: Vec<String> = Vec::new();
    assert(text_views(lines@) =~= Seq::<Seq<char>>::empty());
    if data.len() == 0 {
        push_line(&mut lines, owned("Response: (empty)"));
        assert(text_views(lines@) =~= response_lines(data@, format));
        return lines;
    }
    match format {
        ResponseFormat::Hex => {
            push_line(&mut lines, labelled("Response: ", format_hex(data)));
        },
        ResponseFormat::HexSpaced => {
            push_line(&mut lines, labelled("Response: ", format_hex_spaced(data)));
        },
        ResponseFormat::HexDump => {
            push_line(&mut lines, owned("Response:"));
            push_line(&mut lines, format_hex_dump(data));
        },
        ResponseFormat::Ascii => {
            push_line(&mut lines, labelled("Response (ASCII): ", format_ascii(data)));
        },
        ResponseFormat::All => {
            push_line(&mut lines, labelled("Response (Hex): ", format_hex_spaced(data)));
            push_line(&mut lines, labelled("Response (ASCII): ", format_ascii(data)));
            if data.len() > 16 {
                push_line(&mut lines, owned("Response (Dump):"));
                push_line(&mut lines, format_hex_dump(data));
            }
        },
    }
    assert(text_views(lines@) =~= response_lines(data@, format));
    lines
}

/// The head of a listing entry: the index in brackets and the name.
pub open spec fn entry_head(index: nat, name: Seq<char>) -> Seq<char> {
    "  ["@ + decimal(index) + "] "@ + name
}

/// The lines that list the reader `info` at place `index`. The short form
/// is one line, which marks a reader that holds a card and adds the answer
/// to reset where it is known; the detailed form gives the status and the
/// answer to reset on lines of their own.
pub open spec fn reader_lines(index: nat, info: ReaderInfoView, detailed: bool) -> Seq<Seq<char>> {
    let head = entry_head(index, info.name);
    if detailed {
        let status = "      Status: "@ + (if info.is_connected {
            "Card present"@
        } else {
            "No card"@
        });
        match info.atr {
            Some(atr) => seq![head, status, "      ATR: "@ + format_hex_spaced_spec(atr)],
            None => seq![head, status],
        }
    } else if info.is_connected {
        match info.atr {
            Some(atr) => seq![
                head + " [CARD - ATR: "@ + format_hex_spaced_spec(atr) + "]"@,
            ],
            None => seq![head + " [CARD]"@],
        }
    } else {
        seq![head]
    }
}

/// The head of the listing entry for `info` at place `index`.
fn listing_head(index: usize, info: &ReaderInfo) -> (s: String)
    ensures
        s@ == entry_head(index as nat, info.name@),
{
    let mut s = owned("  [");
    push_decimal(&mut s, index as u64);
    push_text(&mut s, "] ");
    push_text(&mut s, info.name.as_str());
    s
}

/// Lists one reader, in the short or the detailed form.
pub fn render_reader(index: usize, info: &ReaderInfo, detailed: bool) -> (lines: Vec<String>)
    ensures
        text_views(lines@) == reader_lines(index as nat, info@, detailed),
{
    let mut lines: Vec<String> = Vec::new();
    assert(text_views(lines@) =~= Seq::<Seq<char>>::empty());
    let mut head = listing_head(index, info);
    if detailed {
        push_line(&mut lines, head);
        let mut status = owned("      Status: ");
        if info.is_connected {
            push_text(&mut status, "Card present");
        } else {
            push_text(&mut status, "No card");
        }
        push_line(&mut lines, status);
        match &info.atr {
            Some(atr) => {
                push_line(&mut lines, labelled("      ATR: ", format_hex_spaced(atr.as_slice())));
            },
            None => {},
        }
    } else if info.is_connected {
        match &info.atr {
            Some(atr) => {
                push_text(&mut head, " [CARD - ATR: ");
                let spaced = format_hex_spaced(atr.as_slice());
                push_text(&mut head, spaced.as_str());
                push_text(&mut head, "]");
            },
            None => {
                push_text(&mut head, " [CARD]");
            },
        }
        push_line(&mut lines, head);
    } else {
        push_line(&mut lines, head);
    }
    assert(text_views(lines@) =~= reader_lines(index as nat, info@, detailed));
    lines
}

/// The name of a command's kind in the history listing.
pub open spec fn kind_label(kind: CommandType) -> Seq<char> {
    match kind {
        CommandType::Transmit => "TRANSMIT"@,
        CommandType::Control { code } => "CONTROL(0x"@ + upper_hex(code as nat, 1) + ")"@,
    }
}

/// The line of the history listing for the record at place `index`, counted
/// from 0 and shown from 1, with the time of day `clock`.
pub open spec fn history_line(index: nat, clock: Seq<char>, record: CommandResultView) -> Seq<
    char,
> {
    "  ["@ + decimal(index + 1) + "] "@ + clock + " "@ + kind_label(record.command_type) + " - "@
        + (if record.success {
        "OK"@
    } else {
        "ERROR"@
    }) + " ("@ + decimal(record.duration_ms as nat) + "ms)"@
}

/// Shows one record of the history: its place, the time of day, the kind of
/// command, whether it succeeded, and how long it took.
pub fn render_record(index: usize, clock: &str, record: &CommandResult) -> (s: String)
    requires
        index < usize::MAX,
    ensures
        s@ == history_line(index as nat, clock@, record@),
{
    let mut s = owned("  [");
    push_decimal(&mut s, (index + 1) as u64);
    push_text(&mut s, "] ");
    push_text(&mut s, clock);
    push_text(&mut s, " ");
    match record.command_type {
        CommandType::Transmit => {
            push_text(&mut s, "TRANSMIT");
        },
        CommandType::Control { code } => {
            let ghost before = s@;
            push_text(&mut s, "CONTROL(0x");
            push_upper_hex(&mut s, code as u64, 1);
            push_text(&mut s, ")");
            assert(s@ == before + ("CONTROL(0x"@ + upper_hex(code as nat, 1) + ")"@));
        },
    }
    push_text(&mut s, " - ");
    if record.success {
        push_text(&mut s, "OK");
    } else {
        push_text(&mut s, "ERROR");
    }
    push_text(&mut s, " (");
    push_decimal(&mut s, record.duration_ms);
    push_text(&mut s, "ms)");
    s
}

} // verus!
