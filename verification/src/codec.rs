//! Hexadecimal text for byte sequences: lenient parsing, checking, and
//! several ways of formatting.

use vstd::prelude::*;
use crate::error::Error;
use crate::text::{
    ascii_upper, char_ascii_upper, digit_char, digit_to_char, is_whitespace,
    lemma_leading_whitespace_is, lemma_trailing_whitespace_is, owned, push_text, push_upper_hex,
    string_from_chars, to_ascii_upper, to_chars, trim, trim_bounds, upper_hex,
};

verus! {

/// The value of the hexadecimal digit `c`, or -1 where `c` is none.
pub open spec fn hex_value(c: char) -> int {
    if '0' <= c <= '9' {
        c as u32 - 48
    } else if 'a' <= c <= 'f' {
        c as u32 - 87
    } else if 'A' <= c <= 'F' {
        c as u32 - 55
    } else {
        -1
    }
}

/// Tells whether `c` is one of `0-9`, `a-f`, `A-F`.
pub open spec fn is_hex_digit(c: char) -> bool {
    hex_value(c) >= 0
}

/// Tells whether every character of `s` is a hexadecimal digit.
pub open spec fn all_hex_digits(s: Seq<char>) -> bool {
    forall|i: int| 0 <= i < s.len() ==> is_hex_digit(#[trigger] s[i])
}

/// Tells whether `s` is an even number of hexadecimal digits.
pub open spec fn is_hex_text(s: Seq<char>) -> bool {
    s.len() % 2 == 0 && all_hex_digits(s)
}

/// The bytes that the digit pairs of `s` spell.
pub open spec fn hex_bytes(s: Seq<char>) -> Seq<u8> {
    Seq::new(s.len() / 2, |i: int| (hex_value(s[2 * i]) * 16 + hex_value(s[2 * i + 1])) as u8)
}

/// The two upper-case hexadecimal digits of `b`.
pub open spec fn byte_hex(b: u8) -> Seq<char> {
    seq![digit_char(b as int / 16), digit_char(b as int % 16)]
}

/// `bytes` as upper-case hexadecimal digits, two for each byte.
pub open spec fn format_hex_spec(bytes: Seq<u8>) -> Seq<char>
    decreases bytes.len(),
{
    if bytes.len() == 0 {
        Seq::empty()
    } else {
        format_hex_spec(bytes.drop_last()) + byte_hex(bytes.last())
    }
}

/// `bytes` as digit pairs with one space between neighbours.
pub open spec fn format_hex_spaced_spec(bytes: Seq<u8>) -> Seq<char>
    decreases bytes.len(),
{
    if bytes.len() == 0 {
        Seq::empty()
    } else if bytes.len() == 1 {
        byte_hex(bytes[0])
    } else {
        format_hex_spaced_spec(bytes.drop_last()) + seq![' '] + byte_hex(bytes.last())
    }
}

/// `bytes` as `0x`-prefixed digit pairs with a comma and a space between
/// neighbours.
pub open spec fn format_hex_prefixed_spec(bytes: Seq<u8>) -> Seq<char>
    decreases bytes.len(),
{
    if bytes.len() == 0 {
        Seq::empty()
    } else if bytes.len() == 1 {
        seq!['0', 'x'] + byte_hex(bytes[0])
    } else {
        format_hex_prefixed_spec(bytes.drop_last()) + seq![',', ' ', '0', 'x'] + byte_hex(
            bytes.last(),
        )
    }
}

/// The character shown for `b` in an ASCII column: itself where it is a
/// space or a graphic ASCII character, a dot otherwise.
pub open spec fn ascii_or_dot(b: u8) -> char {
    if 0x20 <= b <= 0x7E {
        b as char
    } else {
        '.'
    }
}

/// `bytes` as ASCII, one character for each byte.
pub open spec fn format_ascii_spec(bytes: Seq<u8>) -> Seq<char> {
    bytes.map_values(|b: u8| ascii_or_dot(b))
}

/// The characters that may stand between digit pairs.
pub open spec fn is_separator(c: char) -> bool {
    c == ' ' || c == ',' || c == ':' || c == '-' || c == '\t' || c == '\n' || c == '\r'
}

/// `s` without the occurrences of the two characters `a`, `b` in a row,
/// found from left to right.
pub open spec fn remove_pair(s: Seq<char>, a: char, b: char) -> Seq<char>
    decreases s.len(),
{
    if s.len() == 0 {
        s
    } else if s.len() >= 2 && s[0] == a && s[1] == b {
        remove_pair(s.skip(2), a, b)
    } else {
        seq![s[0]] + remove_pair(s.skip(1), a, b)
    }
}

/// `s` without its separator characters.
pub open spec fn remove_separators(s: Seq<char>) -> Seq<char> {
    s.filter(|c: char| !is_separator(c))
}

/// The residue of hexadecimal text: the surrounding whitespace goes, then
/// every `0x`, then every `0X`, then every separator, and ASCII letters are
/// put in upper case.
pub open spec fn clean_hex(s: Seq<char>) -> Seq<char> {
    to_ascii_upper(remove_separators(remove_pair(remove_pair(trim(s), '0', 'x'), '0', 'X')))
}

/// What `parse_hex` makes of a text: the bytes, or nothing where the residue
/// is not an even number of hexadecimal digits.
pub open spec fn parse_hex_spec(text: Seq<char>) -> Option<Seq<u8>> {
    let cleaned = clean_hex(text);
    if is_hex_text(cleaned) {
        Some(hex_bytes(cleaned))
    } else {
        None
    }
}

/// `hex::FromHexError`, the error of the `hex` crate's decoder.
#[verifier::external_type_specification]
#[verifier::external_body]
pub struct ExFromHexError(hex::FromHexError);

/// `hex::decode` on a string: it succeeds exactly on an even number of
/// hexadecimal digits of either case, and then yields one byte for each pair
/// of digits, the first digit of a pair being the high half. The decoder
/// reads the bytes of the string; no byte of a character outside ASCII is a
/// digit, so text with such a character is refused.
#[verifier::external_body]
fn hex_decode(text: &str) -> (r: Result<Vec<u8>, hex::FromHexError>)
    ensures
        r is Ok <==> is_hex_text(text@),
        r matches Ok(bytes) ==> bytes@ == hex_bytes(text@),
{
    hex::decode(text)
}

/// `hex::encode_upper`: two upper-case hexadecimal digits for each byte, the
/// high half first, bytes in order.
#[verifier::external_body]
fn hex_encode_upper(bytes: &[u8]) -> (s: String)
    ensures
        s@ == format_hex_spec(bytes@),
{
    hex::encode_upper(bytes)
}

/// Tells whether `c` is a hexadecimal digit.
pub fn char_is_hex_digit(c: char) -> (b: bool)
    ensures
        b == is_hex_digit(c),
{
    let n: u32 = c as u32;
    (48 <= n && n <= 57) || (97 <= n && n <= 102) || (65 <= n && n <= 70)
}

/// Tells whether `c` is a separator.
pub fn char_is_separator(c: char) -> (b: bool)
    ensures
        b == is_separator(c),
{
    c == ' ' || c == ',' || c == ':' || c == '-' || c == '\t' || c == '\n' || c == '\r'
}

/// Copies `src[from..to]` without the pairs `a`, `b`.
fn strip_pair(src: &Vec<char>, from: usize, to: usize, a: char, b: char) -> (out: Vec<char>)
    requires
        from <= to <= src.len(),
    ensures
        out@ == remove_pair(src@.subrange(from as int, to as int), a, b),
{
    let ghost whole = src@.subrange(from as int, to as int);
    let mut out: Vec<char> = Vec::new();
    let mut i: usize = from;
    assert(whole.skip(0) == whole);
    while i < to
        invariant
            from <= i <= to <= src.len(),
            whole == src@.subrange(from as int, to as int),
            out@ + remove_pair(whole.skip(i - from), a, b) == remove_pair(whole, a, b),
        decreases to - i,
    {
        let ghost rest = whole.skip(i - from);
        assert(rest[0] == src@[i as int]);
        if i + 1 < to && src[i] == a && src[i + 1] == b {
            assert(rest[1] == src@[i + 1]);
            assert(rest.skip(2) == whole.skip(i + 2 - from));
            i += 2;
        } else {
            assert(rest.skip(1) == whole.skip(i + 1 - from));
            assert(out@.push(src@[i as int]) + remove_pair(rest.skip(1), a, b) == out@ + (
            seq![rest[0]] + remove_pair(rest.skip(1), a, b)));
            out.push(src[i]);
            i += 1;
        }
    }
    assert(whole.skip(to - from).len() == 0);
    out
}

/// Copies `src` without separators, ASCII letters in upper case.
fn strip_separators_upper(src: &Vec<char>) -> (out: Vec<char>)
    ensures
        out@ == to_ascii_upper(remove_separators(src@)),
{
    let ghost keep = |c: char| !is_separator(c);
    let mut out: Vec<char> = Vec::new();
    let mut i: usize = 0;
    assert(src@.take(0) == Seq::<char>::empty());
    while i < src.len()
        invariant
            i <= src.len(),
            keep == (|c: char| !is_separator(c)),
            out@ == to_ascii_upper(src@.take(i as int).filter(keep)),
        decreases src.len() - i,
    {
        let c = src[i];
        proof {
            let before = src@.take(i as int);
            assert(src@.take(i + 1) == before.push(c));
            before.lemma_filter_push(c, keep);
        }
        if !char_is_separator(c) {
            out.push(char_ascii_upper(c));
            assert(out@ == to_ascii_upper(src@.take(i + 1).filter(keep)));
        }
        i += 1;
    }
    assert(src@.take(src@.len() as int) == src@);
    out
}

/// The residue of `chars`, as `clean_hex` states it.
fn clean_chars(chars: &Vec<char>) -> (out: Vec<char>)
    ensures
        out@ == clean_hex(chars@),
{
    let (from, to) = trim_bounds(chars);
    let no_lower = strip_pair(chars, from, to, '0', 'x');
    let no_upper = strip_pair(&no_lower, 0, no_lower.len(), '0', 'X');
    assert(no_lower@.subrange(0, no_lower@.len() as int) == no_lower@);
    strip_separators_upper(&no_upper)
}

/// Strips what may surround and separate hexadecimal digits: whitespace
/// around the text, `0x` and `0X` prefixes, and the separators space, comma,
/// colon, hyphen, tab, line feed and carriage return; ASCII letters come out
/// in upper case.
pub fn clean_hex_string(hex_str: &str) -> (cleaned: String)
    ensures
        cleaned@ == clean_hex(hex_str@),
{
    let chars = to_chars(hex_str);
    let cleaned = clean_chars(&chars);
    string_from_chars(&cleaned)
}

/// Parses hexadecimal text into bytes. Digits of either case are taken, in
/// pairs, with the prefixes and separators that `clean_hex_string` strips.
/// Text that holds nothing else gives no bytes. Any other residue, or an odd
/// number of digits, is refused with the input named in the error.
pub fn parse_hex(hex_str: &str) -> (r: Result<Vec<u8>, Error>)
    ensures
        match parse_hex_spec(hex_str@) {
            Some(bytes) => r matches Ok(v) && v@ == bytes,
            None => r matches Err(Error::InvalidHex(input)) && input@ == hex_str@,
        },
{
    let cleaned = clean_hex_string(hex_str);
    match hex_decode(cleaned.as_str()) {
        Ok(bytes) => Ok(bytes),
        Err(_) => Err(Error::InvalidHex(owned(hex_str))),
    }
}

/// Formats bytes as upper-case hexadecimal digits without separators.
pub fn format_hex(bytes: &[u8]) -> (s: String)
    ensures
        s@ == format_hex_spec(bytes@),
{
    hex_encode_upper(bytes)
}

/// Appends the two digits of `b` to `out`.
pub fn push_byte_hex(out: &mut String, b: u8)
    ensures
        final(out)@ == old(out)@ + byte_hex(b),
{
    out.push(digit_to_char(b / 16));
    out.push(digit_to_char(b % 16));
    assert(old(out)@.push(digit_char(b as int / 16)).push(digit_char(b as int % 16)) == old(out)@
        + byte_hex(b));
}

/// Formats bytes as upper-case digit pairs joined by single spaces.
pub fn format_hex_spaced(bytes: &[u8]) -> (s: String)
    ensures
        s@ == format_hex_spaced_spec(bytes@),
{
    let mut s = String::new();
    let mut i: usize = 0;
    assert(bytes@.take(0) == Seq::<u8>::empty());
    while i < bytes.len()
        invariant
            i <= bytes.len(),
            s@ == format_hex_spaced_spec(bytes@.take(i as int)),
        decreases bytes.len() - i,
    {
        proof {
            let next = bytes@.take(i + 1);
            assert(next.drop_last() == bytes@.take(i as int));
            assert(next.last() == bytes@[i as int]);
        }
        if i > 0 {
            s.push(' ');
            assert(s@ == format_hex_spaced_spec(bytes@.take(i as int)) + seq![' ']);
        }
        push_byte_hex(&mut s, bytes[i]);
        i += 1;
    }
    assert(bytes@.take(bytes@.len() as int) == bytes@);
    s
}

/// Formats bytes as `0x`-prefixed upper-case digit pairs joined by a comma
/// and a space.
pub fn format_hex_prefixed(bytes: &[u8]) -> (s: String)
    ensures
        s@ == format_hex_prefixed_spec(bytes@),
{
    let mut s = String::new();
    let mut i: usize = 0;
    assert(bytes@.take(0) == Seq::<u8>::empty());
    while i < bytes.len()
        invariant
            i <= bytes.len(),
            s@ == format_hex_prefixed_spec(bytes@.take(i as int)),
        decreases bytes.len() - i,
    {
        proof {
            let next = bytes@.take(i + 1);
            assert(next.drop_last() == bytes@.take(i as int));
            assert(next.last() == bytes@[i as int]);
        }
        let ghost before = s@;
        if i > 0 {
            s.push(',');
            s.push(' ');
        }
        s.push('0');
        s.push('x');
        assert(s@ == before + (if i > 0 {
            seq![',', ' ', '0', 'x']
        } else {
            seq!['0', 'x']
        }));
        push_byte_hex(&mut s, bytes[i]);
        i += 1;
    }
    assert(bytes@.take(bytes@.len() as int) == bytes@);
    s
}

/// The character shown for `b` in an ASCII column.
pub fn byte_to_ascii(b: u8) -> (c: char)
    ensures
        c == ascii_or_dot(b),
{
    if 0x20 <= b && b <= 0x7E {
        b as char
    } else {
        '.'
    }
}

/// Formats bytes as ASCII: a space or a graphic ASCII character stands for
/// itself, every other byte is shown as a dot.
pub fn format_ascii(bytes: &[u8]) -> (s: String)
    ensures
        s@ == format_ascii_spec(bytes@),
        s@.len() == bytes@.len(),
{
    let mut s = String::new();
    let mut i: usize = 0;
    while i < bytes.len()
        invariant
            i <= bytes.len(),
            s@ == format_ascii_spec(bytes@.take(i as int)),
        decreases bytes.len() - i,
    {
        s.push(byte_to_ascii(bytes[i]));
        assert(bytes@.take(i + 1) == bytes@.take(i as int).push(bytes@[i as int]));
        assert(s@ == format_ascii_spec(bytes@.take(i + 1)));
        i += 1;
    }
    assert(bytes@.take(bytes@.len() as int) == bytes@);
    s
}


/// What is wrong with text that `validate_hex_string` refuses.
#[derive(Debug, Clone, Copy, PartialEq, Eq)]
pub enum HexFault {
    /// The residue takes an odd number of bytes.
    OddLength,
    /// The residue holds this character, which is no hexadecimal digit.
    InvalidCharacter(char),
}

/// The number of bytes that `c` takes in UTF-8.
pub open spec fn utf8_width(c: char) -> nat {
    let n = c as u32;
    if n < 0x80 {
        1
    } else if n < 0x800 {
        2
    } else if n < 0x10000 {
        3
    } else {
        4
    }
}

/// The number of bytes that `s` takes in UTF-8.
pub open spec fn utf8_len(s: Seq<char>) -> nat
    decreases s.len(),
{
    if s.len() == 0 {
        0
    } else {
        utf8_len(s.drop_last()) + utf8_width(s.last())
    }
}

/// The index of the first character of `s` that is no hexadecimal digit, or
/// the length of `s` where there is none.
pub open spec fn first_non_hex(s: Seq<char>) -> nat
    decreases s.len(),
{
    if s.len() == 0 || !is_hex_digit(s[0]) {
        0
    } else {
        1 + first_non_hex(s.skip(1))
    }
}

/// What `validate_hex_string` makes of a text: an odd byte length of the
/// residue is reported first, then the first character that is no digit.
pub open spec fn validate_hex_spec(text: Seq<char>) -> Result<(), HexFault> {
    let cleaned = clean_hex(text);
    if utf8_len(cleaned) % 2 != 0 {
        Err(HexFault::OddLength)
    } else if first_non_hex(cleaned) < cleaned.len() {
        Err(HexFault::InvalidCharacter(cleaned[first_non_hex(cleaned) as int]))
    } else {
        Ok(())
    }
}

/// A text whose first `n` characters are digits, followed by its end or by a
/// character that is none, has its first non-digit at `n`.
pub proof fn lemma_first_non_hex_is(s: Seq<char>, n: int)
    requires
        0 <= n <= s.len(),
        forall|i: int| 0 <= i < n ==> is_hex_digit(#[trigger] s[i]),
        n < s.len() ==> !is_hex_digit(s[n]),
    ensures
        first_non_hex(s) == n,
    decreases s.len(),
{
    if n > 0 {
        let rest = s.skip(1);
        assert(is_hex_digit(s[0]));
        assert forall|i: int| 0 <= i < n - 1 implies is_hex_digit(#[trigger] rest[i]) by {
            assert(rest[i] == s[i + 1]);
        }
        lemma_first_non_hex_is(rest, n - 1);
    }
}

/// Text made of hexadecimal digits takes one byte for each character.
pub proof fn lemma_utf8_len_of_digits(s: Seq<char>)
    requires
        all_hex_digits(s),
    ensures
        utf8_len(s) == s.len(),
    decreases s.len(),
{
    if s.len() > 0 {
        assert(is_hex_digit(s[s.len() - 1]));
        assert forall|i: int| 0 <= i < s.drop_last().len() implies is_hex_digit(
            #[trigger] s.drop_last()[i],
        ) by {
            assert(s.drop_last()[i] == s[i]);
        }
        lemma_utf8_len_of_digits(s.drop_last());
    }
}

/// Tells whether the UTF-8 width of `c` is odd.
fn utf8_width_is_odd(c: char) -> (b: bool)
    ensures
        b == (utf8_width(c) % 2 == 1),
{
    let n: u32 = c as u32;
    n < 0x80 || (0x800 <= n && n < 0x10000)
}

/// Checks that text is well-formed hexadecimal: after cleaning it must take
/// an even number of bytes and hold hexadecimal digits only. Empty text
/// passes.
pub fn validate_hex_string(hex_str: &str) -> (r: Result<(), HexFault>)
    ensures
        r == validate_hex_spec(hex_str@),
        r is Ok <==> parse_hex_spec(hex_str@) is Some,
{
    let chars = to_chars(hex_str);
    let cleaned = clean_chars(&chars);
    let mut odd = false;
    let mut i: usize = 0;
    assert(cleaned@.take(0) == Seq::<char>::empty());
    while i < cleaned.len()
        invariant
            i <= cleaned.len(),
            odd == (utf8_len(cleaned@.take(i as int)) % 2 == 1),
        decreases cleaned.len() - i,
    {
        proof {
            let next = cleaned@.take(i + 1);
            assert(next.drop_last() == cleaned@.take(i as int));
            assert(next.last() == cleaned@[i as int]);
        }
        if utf8_width_is_odd(cleaned[i]) {
            odd = !odd;
        }
        i += 1;
    }
    assert(cleaned@.take(cleaned@.len() as int) == cleaned@);
    if odd {
        proof {
            if all_hex_digits(cleaned@) {
                lemma_utf8_len_of_digits(cleaned@);
            }
        }
        return Err(HexFault::OddLength);
    }
    let mut k: usize = 0;
    while k < cleaned.len()
        invariant
            k <= cleaned.len(),
            cleaned@ == clean_hex(hex_str@),
            utf8_len(cleaned@) % 2 == 0,
            forall|j: int| 0 <= j < k ==> is_hex_digit(#[trigger] cleaned@[j]),
        decreases cleaned.len() - k,
    {
        if !char_is_hex_digit(cleaned[k]) {
            proof {
                lemma_first_non_hex_is(cleaned@, k as int);
                assert(!is_hex_digit(cleaned@[k as int]));
            }
            return Err(HexFault::InvalidCharacter(cleaned[k]));
        }
        k += 1;
    }
    proof {
        lemma_first_non_hex_is(cleaned@, cleaned@.len() as int);
        lemma_utf8_len_of_digits(cleaned@);
    }
    Ok(())
}

/// Tells whether text looks like hexadecimal bytes: after cleaning it must
/// be a non-empty, even number of hexadecimal digits.
pub fn is_hex_like(s: &str) -> (b: bool)
    ensures
        b == (clean_hex(s@).len() > 0 && is_hex_text(clean_hex(s@))),
{
    let chars = to_chars(s);
    let cleaned = clean_chars(&chars);
    if cleaned.len() == 0 || cleaned.len() % 2 != 0 {
        return false;
    }
    let mut k: usize = 0;
    while k < cleaned.len()
        invariant
            k <= cleaned.len(),
            cleaned@ == clean_hex(s@),
            forall|j: int| 0 <= j < k ==> is_hex_digit(#[trigger] cleaned@[j]),
        decreases cleaned.len() - k,
    {
        if !char_is_hex_digit(cleaned[k]) {
            assert(!is_hex_digit(cleaned@[k as int]));
            return false;
        }
        k += 1;
    }
    true
}

/// `n` spaces.
pub open spec fn spaces(n: nat) -> Seq<char> {
    Seq::new(n, |i: int| ' ')
}

/// The hexadecimal cells of one dump line: each byte as two digits and a
/// space, with one more space after the eighth byte.
pub open spec fn dump_cells(chunk: Seq<u8>) -> Seq<char>
    decreases chunk.len(),
{
    if chunk.len() == 0 {
        Seq::empty()
    } else {
        dump_cells(chunk.drop_last()) + byte_hex(chunk.last()) + (if chunk.len() == 8 {
            seq![' ', ' ']
        } else {
            seq![' ']
        })
    }
}

/// The number of spaces that fill the cells of a line of `len` bytes up to
/// the width of sixteen bytes: three for each byte that is missing, and one
/// for the gap after the eighth byte where the line does not reach it.
pub open spec fn dump_padding(len: nat) -> nat {
    ((16 - len) * 3 + (if len < 8 {
        1int
    } else {
        0int
    })) as nat
}

/// One line of a dump: the offset in eight hexadecimal digits, a colon, the
/// cells padded to the width of sixteen bytes, and the ASCII column between
/// bars.
pub open spec fn dump_line(offset: nat, chunk: Seq<u8>) -> Seq<char> {
    upper_hex(offset, 8) + seq![':', ' '] + dump_cells(chunk) + spaces(dump_padding(chunk.len()))
        + seq![' ', '|'] + format_ascii_spec(chunk) + seq!['|']
}

/// The cells of a line take three characters for each byte, and one more
/// from the eighth byte on.
pub proof fn lemma_dump_cells_len(chunk: Seq<u8>)
    ensures
        dump_cells(chunk).len() == 3 * chunk.len() + (if chunk.len() >= 8 {
            1int
        } else {
            0int
        }),
    decreases chunk.len(),
{
    if chunk.len() > 0 {
        lemma_dump_cells_len(chunk.drop_last());
    }
}

/// The ASCII column is aligned: on every line of one to sixteen bytes the
/// cells with their padding are 49 characters wide, so that the bar opens at
/// the same place whatever the number of bytes.
pub proof fn lemma_dump_column_aligned(chunk: Seq<u8>)
    requires
        chunk.len() <= 16,
    ensures
        (dump_cells(chunk) + spaces(dump_padding(chunk.len()))).len() == 49,
{
    lemma_dump_cells_len(chunk);
}

/// The bytes of line `index` of a dump of `bytes`.
pub open spec fn dump_chunk(bytes: Seq<u8>, index: nat) -> Seq<u8> {
    bytes.subrange(
        index as int * 16,
        if (index + 1) * 16 <= bytes.len() {
            (index as int + 1) * 16
        } else {
            bytes.len() as int
        },
    )
}

/// The first `count` lines of a dump of `bytes`, with a line feed between
/// neighbours.
pub open spec fn dump_lines(bytes: Seq<u8>, count: nat) -> Seq<char>
    decreases count,
{
    if count == 0 {
        Seq::empty()
    } else if count == 1 {
        dump_line(0, dump_chunk(bytes, 0))
    } else {
        dump_lines(bytes, (count - 1) as nat) + seq!['\n'] + dump_line(
            ((count - 1) * 16) as nat,
            dump_chunk(bytes, (count - 1) as nat),
        )
    }
}

/// The number of lines in a dump of `len` bytes.
pub open spec fn dump_line_count(len: nat) -> nat {
    (len + 15) / 16
}

/// The dump of `bytes`: the word `(empty)` for no bytes, else lines of
/// sixteen bytes each.
pub open spec fn format_hex_dump_spec(bytes: Seq<u8>) -> Seq<char> {
    if bytes.len() == 0 {
        seq!['(', 'e', 'm', 'p', 't', 'y', ')']
    } else {
        dump_lines(bytes, dump_line_count(bytes.len()))
    }
}

/// Appends one dump line for `bytes[start..end]` to `out`.
fn push_dump_line(out: &mut String, bytes: &[u8], start: usize, end: usize)
    requires
        start < end <= bytes.len(),
        end - start <= 16,
    ensures
        final(out)@ == old(out)@ + dump_line(
            start as nat,
            bytes@.subrange(start as int, end as int),
        ),
{
    let ghost chunk = bytes@.subrange(start as int, end as int);
    let ghost base = out@;
    push_upper_hex(out, start as u64, 8);
    out.push(':');
    out.push(' ');
    let ghost head = base + upper_hex(start as nat, 8) + seq![':', ' '];
    assert(out@ == head);
    let mut j: usize = start;
    assert(chunk.take(0) == Seq::<u8>::empty());
    while j < end
        invariant
            start <= j <= end <= bytes.len(),
            chunk == bytes@.subrange(start as int, end as int),
            out@ == head + dump_cells(chunk.take(j - start)),
        decreases end - j,
    {
        proof {
            let next = chunk.take(j + 1 - start);
            assert(next.drop_last() == chunk.take(j - start));
            assert(next.last() == bytes@[j as int]);
        }
        push_byte_hex(out, bytes[j]);
        out.push(' ');
        if j - start == 7 {
            out.push(' ');
        }
        assert(out@ == head + dump_cells(chunk.take(j + 1 - start)));
        j += 1;
    }
    assert(chunk.take(end - start) == chunk);
    let ghost cells = head + dump_cells(chunk);
    let len = end - start;
    let padding: usize = (16 - len) * 3 + (if len < 8 {
        1
    } else {
        0
    });
    let mut p: usize = 0;
    while p < padding
        invariant
            p <= padding,
            out@ == cells + spaces(p as nat),
        decreases padding - p,
    {
        out.push(' ');
        assert(spaces(p as nat).push(' ') == spaces((p + 1) as nat));
        p += 1;
    }
    out.push(' ');
    out.push('|');
    let ghost before_ascii = cells + spaces(padding as nat) + seq![' ', '|'];
    assert(out@ == before_ascii);
    let mut k: usize = start;
    while k < end
        invariant
            start <= k <= end <= bytes.len(),
            chunk == bytes@.subrange(start as int, end as int),
            out@ == before_ascii + format_ascii_spec(chunk.take(k - start)),
        decreases end - k,
    {
        out.push(byte_to_ascii(bytes[k]));
        assert(chunk.take(k + 1 - start) == chunk.take(k - start).push(bytes@[k as int]));
        assert(out@ == before_ascii + format_ascii_spec(chunk.take(k + 1 - start)));
        k += 1;
    }
    assert(chunk.take(end - start) == chunk);
    out.push('|');
    assert(out@ == base + dump_line(start as nat, chunk));
}

/// Formats bytes as a dump of sixteen bytes to the line: the offset, the
/// bytes in hexadecimal with a gap after the eighth, and the same bytes as
/// ASCII between bars. No bytes are shown as the word `(empty)`.
pub fn format_hex_dump(bytes: &[u8]) -> (s: String)
    ensures
        s@ == format_hex_dump_spec(bytes@),
{
    let mut s = String::new();
    let n = bytes.len();
    if n == 0 {
        push_text(&mut s, "(empty)");
        proof {
            reveal_strlit("(empty)");
            assert("(empty)"@ == seq!['(', 'e', 'm', 'p', 't', 'y', ')']);
        }
        return s;
    }
    let mut line: usize = 0;
    let mut start: usize = 0;
    while start < n
        invariant
            n == bytes.len(),
            start == line * 16 || (start == n && line == dump_line_count(n as nat)),
            start <= n,
            line <= dump_line_count(n as nat),
            start < n ==> line < dump_line_count(n as nat),
            s@ == dump_lines(bytes@, line as nat),
        decreases n - start,
    {
        let end: usize = if n - start > 16 {
            start + 16
        } else {
            n
        };
        if line > 0 {
            s.push('\n');
        }
        assert(bytes@.subrange(start as int, end as int) == dump_chunk(bytes@, line as nat));
        push_dump_line(&mut s, bytes, start, end);
        assert(s@ == dump_lines(bytes@, (line + 1) as nat));
        line += 1;
        start = end;
    }
    s
}


/// Tells whether `c` is a digit as the formatters write it: `0-9` or `A-F`.
pub open spec fn is_upper_hex_digit(c: char) -> bool {
    '0' <= c <= '9' || 'A' <= c <= 'F'
}

/// Tells whether every character of `s` is a digit as the formatters write
/// it, or a space.
pub open spec fn all_upper_hex_or_space(s: Seq<char>) -> bool {
    forall|i: int| 0 <= i < s.len() ==> is_upper_hex_digit(#[trigger] s[i]) || s[i] == ' '
}

/// Tells whether `s` is made of upper-case digits and spaces, with no space
/// at either end.
pub open spec fn is_plain_hex(s: Seq<char>) -> bool {
    &&& all_upper_hex_or_space(s)
    &&& s.len() > 0 ==> is_upper_hex_digit(s[0]) && is_upper_hex_digit(s.last())
}

proof fn lemma_digit_char(d: int)
    requires
        0 <= d < 16,
    ensures
        is_upper_hex_digit(digit_char(d)),
        hex_value(digit_char(d)) == d,
{
}

proof fn lemma_upper_hex_digit(c: char)
    requires
        is_upper_hex_digit(c),
    ensures
        is_hex_digit(c),
        !is_whitespace(c),
        !is_separator(c),
        c != 'x',
        c != 'X',
        ascii_upper(c) == c,
{
}

proof fn lemma_byte_hex(b: u8)
    ensures
        byte_hex(b).len() == 2,
        is_upper_hex_digit(byte_hex(b)[0]),
        is_upper_hex_digit(byte_hex(b)[1]),
        hex_value(byte_hex(b)[0]) * 16 + hex_value(byte_hex(b)[1]) == b,
{
    lemma_digit_char(b as int / 16);
    lemma_digit_char(b as int % 16);
}

/// Text without separators is all that remains when separators go.
proof fn lemma_remove_separators_none(s: Seq<char>)
    requires
        forall|i: int| 0 <= i < s.len() ==> !is_separator(#[trigger] s[i]),
    ensures
        remove_separators(s) == s,
    decreases s.len(),
{
    let keep = |c: char| !is_separator(c);
    reveal(Seq::filter);
    if s.len() > 0 {
        let front = s.drop_last();
        assert forall|i: int| 0 <= i < front.len() implies !is_separator(#[trigger] front[i]) by {
            assert(front[i] == s[i]);
        }
        lemma_remove_separators_none(front);
        assert(keep(s.last()));
        assert(front.push(s.last()) == s);
    }
}

/// Removing a pair whose second character does not occur changes nothing.
proof fn lemma_remove_pair_absent(s: Seq<char>, a: char, b: char)
    requires
        forall|i: int| 0 <= i < s.len() ==> #[trigger] s[i] != b,
    ensures
        remove_pair(s, a, b) == s,
    decreases s.len(),
{
    if s.len() > 0 {
        let rest = s.skip(1);
        assert forall|i: int| 0 <= i < rest.len() implies #[trigger] rest[i] != b by {
            assert(rest[i] == s[i + 1]);
        }
        lemma_remove_pair_absent(rest, a, b);
        if s.len() >= 2 {
            assert(s[1] != b);
        }
        assert(seq![s[0]] + rest == s);
    }
}

/// What remains of digits and spaces when the separators go is digits.
proof fn lemma_remove_separators_upper(s: Seq<char>)
    requires
        all_upper_hex_or_space(s),
    ensures
        to_ascii_upper(remove_separators(s)) == remove_separators(s),
{
    let keep = |c: char| !is_separator(c);
    let kept = s.filter(keep);
    assert forall|i: int| 0 <= i < kept.len() implies ascii_upper(#[trigger] kept[i])
        == kept[i] by {
        assert(kept.contains(kept[i]));
        s.lemma_filter_contains_rev(keep, kept[i]);
        let j = choose|j: int| 0 <= j < s.len() && s[j] == kept[i];
        assert(is_upper_hex_digit(s[j]) || s[j] == ' ');
        if is_upper_hex_digit(s[j]) {
            lemma_upper_hex_digit(s[j]);
        }
    }
    assert(to_ascii_upper(kept) =~= kept);
}

/// Cleaning text that the formatters wrote only takes its spaces out.
proof fn lemma_clean_plain_hex(s: Seq<char>)
    requires
        is_plain_hex(s),
    ensures
        clean_hex(s) == remove_separators(s),
{
    if s.len() > 0 {
        lemma_upper_hex_digit(s[0]);
        lemma_upper_hex_digit(s[s.len() - 1]);
    }
    lemma_leading_whitespace_is(s, 0);
    assert(s.skip(0) == s);
    lemma_trailing_whitespace_is(s, 0);
    assert(s.take(s.len() as int) == s);
    assert(trim(s) == s);
    assert forall|i: int| 0 <= i < s.len() implies #[trigger] s[i] != 'x' by {
        if is_upper_hex_digit(s[i]) {
            lemma_upper_hex_digit(s[i]);
        }
    }
    assert forall|i: int| 0 <= i < s.len() implies #[trigger] s[i] != 'X' by {
        if is_upper_hex_digit(s[i]) {
            lemma_upper_hex_digit(s[i]);
        }
    }
    lemma_remove_pair_absent(s, '0', 'x');
    lemma_remove_pair_absent(s, '0', 'X');
    lemma_remove_separators_upper(s);
}

/// The digits of `format_hex_spec`, two for each byte.
proof fn lemma_format_hex_chars(bytes: Seq<u8>)
    ensures
        format_hex_spec(bytes).len() == 2 * bytes.len(),
        forall|i: int|
            0 <= i < bytes.len() ==> #[trigger] format_hex_spec(bytes)[2 * i] == byte_hex(
                bytes[i],
            )[0],
        forall|i: int|
            0 <= i < bytes.len() ==> #[trigger] format_hex_spec(bytes)[2 * i + 1] == byte_hex(
                bytes[i],
            )[1],
    decreases bytes.len(),
{
    if bytes.len() > 0 {
        let front = bytes.drop_last();
        let last = bytes.last();
        lemma_format_hex_chars(front);
        let f = format_hex_spec(bytes);
        let ff = format_hex_spec(front);
        assert(f == ff + byte_hex(last));
        assert(byte_hex(last).len() == 2);
        assert forall|i: int| 0 <= i < bytes.len() implies #[trigger] f[2 * i] == byte_hex(
            bytes[i],
        )[0] by {
            if i < front.len() {
                assert(bytes[i] == front[i]);
                assert(f[2 * i] == ff[2 * i]);
            }
        }
        assert forall|i: int| 0 <= i < bytes.len() implies #[trigger] f[2 * i + 1] == byte_hex(
            bytes[i],
        )[1] by {
            if i < front.len() {
                assert(bytes[i] == front[i]);
                assert(f[2 * i + 1] == ff[2 * i + 1]);
            }
        }
    }
}

/// Every character of `format_hex_spec` is an upper-case digit.
proof fn lemma_format_hex_digits(bytes: Seq<u8>)
    ensures
        forall|i: int|
            0 <= i < format_hex_spec(bytes).len() ==> is_upper_hex_digit(
                #[trigger] format_hex_spec(bytes)[i],
            ),
{
    let f = format_hex_spec(bytes);
    lemma_format_hex_chars(bytes);
    assert forall|i: int| 0 <= i < f.len() implies is_upper_hex_digit(#[trigger] f[i]) by {
        let k = i / 2;
        lemma_byte_hex(bytes[k]);
        if i % 2 == 0 {
            assert(i == 2 * k);
            assert(f[2 * k] == byte_hex(bytes[k])[0]);
        } else {
            assert(i == 2 * k + 1);
            assert(f[2 * k + 1] == byte_hex(bytes[k])[1]);
        }
    }
}

/// `format_hex_spec` writes plain digits, which decode to the bytes.
proof fn lemma_hex_bytes_of_format(bytes: Seq<u8>)
    ensures
        is_plain_hex(format_hex_spec(bytes)),
        remove_separators(format_hex_spec(bytes)) == format_hex_spec(bytes),
        is_hex_text(format_hex_spec(bytes)),
        hex_bytes(format_hex_spec(bytes)) == bytes,
{
    let f = format_hex_spec(bytes);
    lemma_format_hex_chars(bytes);
    lemma_format_hex_digits(bytes);
    assert forall|i: int| 0 <= i < f.len() implies is_hex_digit(#[trigger] f[i]) && !is_separator(
        f[i],
    ) by {
        lemma_upper_hex_digit(f[i]);
    }
    lemma_remove_separators_none(f);
    assert(hex_bytes(f).len() == bytes.len());
    assert forall|i: int| 0 <= i < bytes.len() implies #[trigger] hex_bytes(f)[i]
        == bytes[i] by {
        lemma_byte_hex(bytes[i]);
        assert(f[2 * i] == byte_hex(bytes[i])[0]);
        assert(f[2 * i + 1] == byte_hex(bytes[i])[1]);
    }
    assert(hex_bytes(f) =~= bytes);
}

/// The spaced form is never empty for one byte or more, and begins and ends
/// with a digit.
proof fn lemma_format_hex_spaced_plain(bytes: Seq<u8>)
    ensures
        is_plain_hex(format_hex_spaced_spec(bytes)),
        bytes.len() > 0 ==> format_hex_spaced_spec(bytes).len() > 0,
    decreases bytes.len(),
{
    let g = format_hex_spaced_spec(bytes);
    if bytes.len() == 1 {
        lemma_byte_hex(bytes[0]);
    } else if bytes.len() > 1 {
        let front = bytes.drop_last();
        let last = bytes.last();
        lemma_format_hex_spaced_plain(front);
        lemma_byte_hex(last);
        let gf = format_hex_spaced_spec(front);
        assert(g == gf + seq![' '] + byte_hex(last));
        assert forall|i: int| 0 <= i < g.len() implies is_upper_hex_digit(#[trigger] g[i])
            || g[i] == ' ' by {
            if i < gf.len() {
                assert(g[i] == gf[i]);
            } else if i == gf.len() {
                assert(g[i] == ' ');
            } else {
                assert(g[i] == byte_hex(last)[i - gf.len() - 1]);
            }
        }
        assert(g[0] == gf[0]);
        assert(g.last() == byte_hex(last)[1]);
    }
}

/// Without its spaces the spaced form is the unseparated form.
proof fn lemma_format_hex_spaced_residue(bytes: Seq<u8>)
    ensures
        remove_separators(format_hex_spaced_spec(bytes)) == format_hex_spec(bytes),
    decreases bytes.len(),
{
    let keep = |c: char| !is_separator(c);
    let g = format_hex_spaced_spec(bytes);
    let none = Seq::<char>::empty();
    if bytes.len() == 0 {
        lemma_remove_separators_none(g);
    } else {
        let front = bytes.drop_last();
        let last = bytes.last();
        let pair = byte_hex(last);
        lemma_byte_hex(last);
        lemma_upper_hex_digit(pair[0]);
        lemma_upper_hex_digit(pair[1]);
        lemma_remove_separators_none(pair);
        if bytes.len() == 1 {
            assert(format_hex_spec(front) == none);
            assert(none + pair == pair);
        } else {
            lemma_format_hex_spaced_residue(front);
            let gf = format_hex_spaced_spec(front);
            let gap = seq![' '];
            assert(g == (gf + gap) + pair);
            none.lemma_filter_push(' ', keep);
            assert(gap == none.push(' '));
            lemma_remove_separators_none(none);
            assert(gap.filter(keep) == none);
            Seq::filter_distributes_over_add(gf, gap, keep);
            Seq::filter_distributes_over_add(gf + gap, pair, keep);
            assert(format_hex_spec(front) + none == format_hex_spec(front));
        }
    }
}

/// Parsing what `format_hex` writes gives the bytes back.
pub proof fn lemma_parse_hex_of_format_hex(bytes: Seq<u8>)
    ensures
        parse_hex_spec(format_hex_spec(bytes)) == Some(bytes),
{
    lemma_hex_bytes_of_format(bytes);
    lemma_clean_plain_hex(format_hex_spec(bytes));
}

/// Parsing what `format_hex_spaced` writes gives the bytes back.
pub proof fn lemma_parse_hex_of_format_hex_spaced(bytes: Seq<u8>)
    ensures
        parse_hex_spec(format_hex_spaced_spec(bytes)) == Some(bytes),
{
    lemma_format_hex_spaced_plain(bytes);
    lemma_format_hex_spaced_residue(bytes);
    lemma_clean_plain_hex(format_hex_spaced_spec(bytes));
    lemma_hex_bytes_of_format(bytes);
}

} // verus!
