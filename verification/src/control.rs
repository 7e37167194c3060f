//! Control codes: the numbers that address reader commands, as an operator
//! types them.

use vstd::prelude::*;
use crate::codec::{all_hex_digits, char_is_hex_digit, is_hex_digit};
use crate::error::Error;
use crate::number::{parse_unsigned, parse_unsigned_range};
use crate::text::{string_from_chars, to_chars, trim, trim_bounds};

verus! {

/// Tells whether `s` begins with `0x` or `0X`.
pub open spec fn has_hex_prefix(s: Seq<char>) -> bool {
    s.len() >= 2 && s[0] == '0' && (s[1] == 'x' || s[1] == 'X')
}

/// What `parse_control_code` makes of a text. Without the whitespace around
/// it, text with a `0x` or `0X` prefix is hexadecimal after the prefix; text
/// of more than three characters, all of them hexadecimal digits, is
/// hexadecimal; any other text is decimal.
pub open spec fn parse_control_code_spec(text: Seq<char>) -> Option<int> {
    let t = trim(text);
    if has_hex_prefix(t) {
        parse_unsigned(t.skip(2), 16, u32::MAX as int)
    } else if t.len() > 3 && all_hex_digits(t) {
        parse_unsigned(t, 16, u32::MAX as int)
    } else {
        parse_unsigned(t, 10, u32::MAX as int)
    }
}

/// Parses a control code. A `0x` or `0X` prefix marks hexadecimal; text of
/// more than three hexadecimal digits without a prefix is taken as
/// hexadecimal as well; any other text is taken as decimal. Whitespace
/// around the text is ignored. Text that is no number in its base, or whose
/// value does not fit in 32 bits, is refused with the input named in the
/// error.
pub fn parse_control_code(code_str: &str) -> (r: Result<u32, Error>)
    ensures
        match parse_control_code_spec(code_str@) {
            Some(code) => 0 <= code <= u32::MAX && r == Ok::<u32, Error>(code as u32),
            None => r matches Err(Error::InvalidControlCode(input)) && input@ == code_str@,
        },
{
    let chars = to_chars(code_str);
    let (from, to) = trim_bounds(&chars);
    let ghost t = chars@.subrange(from as int, to as int);
    let parsed = if to - from >= 2 && chars[from] == '0' && (chars[from + 1] == 'x' || chars[from
        + 1] == 'X') {
        assert(t.skip(2) == chars@.subrange(from + 2, to as int));
        parse_unsigned_range(&chars, from + 2, to, 16, 0xFFFF_FFFF)
    } else if to - from > 3 && range_all_hex_digits(&chars, from, to) {
        parse_unsigned_range(&chars, from, to, 16, 0xFFFF_FFFF)
    } else {
        parse_unsigned_range(&chars, from, to, 10, 0xFFFF_FFFF)
    };
    match parsed {
        Some(code) => Ok(code as u32),
        None => Err(Error::InvalidControlCode(string_from_chars(&chars))),
    }
}

/// Tells whether every character of `chars[from..to]` is a hexadecimal
/// digit.
fn range_all_hex_digits(chars: &Vec<char>, from: usize, to: usize) -> (b: bool)
    requires
        from <= to <= chars.len(),
    ensures
        b == all_hex_digits(chars@.subrange(from as int, to as int)),
{
    let ghost s = chars@.subrange(from as int, to as int);
    let mut i: usize = from;
    while i < to
        invariant
            from <= i <= to <= chars.len(),
            s == chars@.subrange(from as int, to as int),
            forall|j: int| 0 <= j < i - from ==> is_hex_digit(#[trigger] s[j]),
        decreases to - i,
    {
        assert(s[i - from] == chars@[i as int]);
        if !char_is_hex_digit(chars[i]) {
            return false;
        }
        i += 1;
    }
    true
}

} // verus!
