//! The vocabulary of the two status bytes that end a card's response.

use vstd::prelude::*;
use crate::codec::{byte_hex, push_byte_hex};
use crate::text::{decimal, owned, push_decimal, push_text};

verus! {

/// The description of the status bytes `sw1`, `sw2`: the exact pairs first,
/// then the pairs whose second byte carries a count, and for every other
/// pair the two bytes in hexadecimal.
pub open spec fn status_text(sw1: u8, sw2: u8) -> Seq<char> {
    match (sw1, sw2) {
        (0x90, 0x00) => "Success"@,
        (0x61, n) => "Success, "@ + decimal(n as nat) + " bytes available"@,
        (0x62, 0x00) => "Warning: No information given"@,
        (0x62, 0x81) => "Warning: Part of returned data may be corrupted"@,
        (0x62, 0x82) => "Warning: End of file reached"@,
        (0x62, 0x83) => "Warning: Selected file invalidated"@,
        (0x62, 0x84) => "Warning: FCI not formatted"@,
        (0x63, 0x00) => "Warning: No information given"@,
        (0x63, n) if 0xC0 <= n <= 0xCF => "Warning: Counter = "@ + decimal((n - 0xC0) as nat),
        (0x64, 0x00) => "Error: Execution error"@,
        (0x65, 0x00) => "Error: No precise diagnosis"@,
        (0x65, 0x81) => "Error: Memory failure"@,
        (0x66, 0x00) => "Error: Reserved"@,
        (0x67, 0x00) => "Error: Wrong length"@,
        (0x68, 0x00) => "Error: Functions in CLA not supported"@,
        (0x68, 0x81) => "Error: Logical channel not supported"@,
        (0x68, 0x82) => "Error: Secure messaging not supported"@,
        (0x69, 0x00) => "Error: Command not allowed"@,
        (0x69, 0x81) => "Error: Command incompatible with file structure"@,
        (0x69, 0x82) => "Error: Security status not satisfied"@,
        (0x69, 0x83) => "Error: Authentication method blocked"@,
        (0x69, 0x84) => "Error: Referenced data invalidated"@,
        (0x69, 0x85) => "Error: Conditions of use not satisfied"@,
        (0x69, 0x86) => "Error: Command not allowed (no current EF)"@,
        (0x69, 0x87) => "Error: Expected SM data objects missing"@,
        (0x69, 0x88) => "Error: SM data objects incorrect"@,
        (0x6A, 0x00) => "Error: Wrong parameter(s) P1-P2"@,
        (0x6A, 0x80) => "Error: Incorrect parameters in data field"@,
        (0x6A, 0x81) => "Error: Function not supported"@,
        (0x6A, 0x82) => "Error: File not found"@,
        (0x6A, 0x83) => "Error: Record not found"@,
        (0x6A, 0x84) => "Error: Not enough memory space in file"@,
        (0x6A, 0x85) => "Error: Lc inconsistent with TLV structure"@,
        (0x6A, 0x86) => "Error: Incorrect parameters P1-P2"@,
        (0x6A, 0x87) => "Error: Lc inconsistent with P1-P2"@,
        (0x6A, 0x88) => "Error: Referenced data not found"@,
        (0x6B, 0x00) => "Error: Wrong parameter(s) P1-P2"@,
        (0x6C, n) => "Error: Wrong Le field, exact length: "@ + decimal(n as nat),
        (0x6D, 0x00) => "Error: Instruction code not supported or invalid"@,
        (0x6E, 0x00) => "Error: Class not supported"@,
        (0x6F, 0x00) => "Error: No precise diagnosis"@,
        _ => "Unknown status: "@ + byte_hex(sw1) + seq![' '] + byte_hex(sw2),
    }
}

/// The text `head`, the number `n` in decimal, and the text `tail`.
fn with_count(head: &str, n: u8, tail: &str) -> (s: String)
    ensures
        s@ == head@ + decimal(n as nat) + tail@,
{
    let mut s = String::new();
    push_text(&mut s, head);
    push_decimal(&mut s, n as u64);
    push_text(&mut s, tail);
    s
}

/// Describes the status bytes of a response for a reader of the log.
pub fn describe_status_word(sw1: u8, sw2: u8) -> (s: String)
    ensures
        s@ == status_text(sw1, sw2),
{
    match (sw1, sw2) {
        (0x90, 0x00) => owned("Success"),
        (0x61, n) => with_count("Success, ", n, " bytes available"),
        (0x62, 0x00) => owned("Warning: No information given"),
        (0x62, 0x81) => owned("Warning: Part of returned data may be corrupted"),
        (0x62, 0x82) => owned("Warning: End of file reached"),
        (0x62, 0x83) => owned("Warning: Selected file invalidated"),
        (0x62, 0x84) => owned("Warning: FCI not formatted"),
        (0x63, 0x00) => owned("Warning: No information given"),
        (0x63, n) if 0xC0 <= n && n <= 0xCF => {
            let s = with_count("Warning: Counter = ", n - 0xC0, "");
            proof {
                reveal_strlit("");
                assert(s@ == "Warning: Counter = "@ + decimal((n - 0xC0) as nat));
            }
            s
        },
        (0x64, 0x00) => owned("Error: Execution error"),
        (0x65, 0x00) => owned("Error: No precise diagnosis"),
        (0x65, 0x81) => owned("Error: Memory failure"),
        (0x66, 0x00) => owned("Error: Reserved"),
        (0x67, 0x00) => owned("Error: Wrong length"),
        (0x68, 0x00) => owned("Error: Functions in CLA not supported"),
        (0x68, 0x81) => owned("Error: Logical channel not supported"),
        (0x68, 0x82) => owned("Error: Secure messaging not supported"),
        (0x69, 0x00) => owned("Error: Command not allowed"),
        (0x69, 0x81) => owned("Error: Command incompatible with file structure"),
        (0x69, 0x82) => owned("Error: Security status not satisfied"),
        (0x69, 0x83) => owned("Error: Authentication method blocked"),
        (0x69, 0x84) => owned("Error: Referenced data invalidated"),
        (0x69, 0x85) => owned("Error: Conditions of use not satisfied"),
        (0x69, 0x86) => owned("Error: Command not allowed (no current EF)"),
        (0x69, 0x87) => owned("Error: Expected SM data objects missing"),
        (0x69, 0x88) => owned("Error: SM data objects incorrect"),
        (0x6A, 0x00) => owned("Error: Wrong parameter(s) P1-P2"),
        (0x6A, 0x80) => owned("Error: Incorrect parameters in data field"),
        (0x6A, 0x81) => owned("Error: Function not supported"),
        (0x6A, 0x82) => owned("Error: File not found"),
        (0x6A, 0x83) => owned("Error: Record not found"),
        (0x6A, 0x84) => owned("Error: Not enough memory space in file"),
        (0x6A, 0x85) => owned("Error: Lc inconsistent with TLV structure"),
        (0x6A, 0x86) => owned("Error: Incorrect parameters P1-P2"),
        (0x6A, 0x87) => owned("Error: Lc inconsistent with P1-P2"),
        (0x6A, 0x88) => owned("Error: Referenced data not found"),
        (0x6B, 0x00) => owned("Error: Wrong parameter(s) P1-P2"),
        (0x6C, n) => {
            let s = with_count("Error: Wrong Le field, exact length: ", n, "");
            proof {
                reveal_strlit("");
                assert(s@ == "Error: Wrong Le field, exact length: "@ + decimal(n as nat));
            }
            s
        },
        (0x6D, 0x00) => owned("Error: Instruction code not supported or invalid"),
        (0x6E, 0x00) => owned("Error: Class not supported"),
        (0x6F, 0x00) => owned("Error: No precise diagnosis"),
        _ => {
            let mut s = String::new();
            push_text(&mut s, "Unknown status: ");
            push_byte_hex(&mut s, sw1);
            s.push(' ');
            push_byte_hex(&mut s, sw2);
            s
        },
    }
}

} // verus!
