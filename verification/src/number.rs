//! Unsigned numbers in text, read digit by digit.

use vstd::prelude::*;
use crate::codec::hex_value;

verus! {

/// The value of `c` as a digit in base `radix`, or -1 where it is none.
pub open spec fn digit_value(c: char, radix: int) -> int {
    let v = hex_value(c);
    if 0 <= v < radix {
        v
    } else {
        -1
    }
}

/// Tells whether every character of `s` is a digit in base `radix`.
pub open spec fn all_digits(s: Seq<char>, radix: int) -> bool {
    forall|i: int| 0 <= i < s.len() ==> digit_value(#[trigger] s[i], radix) >= 0
}

/// The number that the digits `s` spell in base `radix`.
pub open spec fn digits_value(s: Seq<char>, radix: int) -> int
    decreases s.len(),
{
    if s.len() == 0 {
        0
    } else {
        digits_value(s.drop_last(), radix) * radix + digit_value(s.last(), radix)
    }
}

/// The number that the digits `body` spell in base `radix`, where there is
/// one digit or more and the value is at most `max`; nothing otherwise.
pub open spec fn parse_digits(body: Seq<char>, radix: int, max: int) -> Option<int> {
    if body.len() > 0 && all_digits(body, radix) && digits_value(body, radix) <= max {
        Some(digits_value(body, radix))
    } else {
        None
    }
}

/// The number that `s` spells in base `radix`: an optional plus sign, then
/// digits as `parse_digits` takes them.
pub open spec fn parse_unsigned(s: Seq<char>, radix: int, max: int) -> Option<int> {
    if s.len() > 0 && s[0] == '+' {
        parse_digits(s.skip(1), radix, max)
    } else {
        parse_digits(s, radix, max)
    }
}

proof fn lemma_digits_value_step(s: Seq<char>, radix: int, k: int)
    requires
        0 <= k < s.len(),
    ensures
        digits_value(s.take(k + 1), radix) == digits_value(s.take(k), radix) * radix + digit_value(
            s[k],
            radix,
        ),
{
    let next = s.take(k + 1);
    assert(next.drop_last() == s.take(k));
    assert(next.last() == s[k]);
}

/// A number never shrinks when digits are appended to it.
proof fn lemma_digits_value_grows(s: Seq<char>, radix: int, k: int)
    requires
        radix >= 2,
        all_digits(s, radix),
        0 <= k <= s.len(),
    ensures
        0 <= digits_value(s.take(k), radix) <= digits_value(s, radix),
    decreases s.len() - k,
{
    if k == 0 {
        assert(s.take(0).len() == 0);
    } else {
        lemma_digits_value_grows_front(s, radix, k);
    }
    if k < s.len() {
        lemma_digits_value_grows(s, radix, k + 1);
        lemma_digits_value_step(s, radix, k);
        let v = digits_value(s.take(k), radix);
        assert(digit_value(s[k], radix) >= 0);
        assert(v * radix >= v) by (nonlinear_arith)
            requires
                v >= 0,
                radix >= 2,
        ;
    } else {
        assert(s.take(k) == s);
    }
}

/// The digits before any position spell a number that is not negative.
proof fn lemma_digits_value_grows_front(s: Seq<char>, radix: int, k: int)
    requires
        radix >= 2,
        all_digits(s, radix),
        0 <= k <= s.len(),
    ensures
        0 <= digits_value(s.take(k), radix),
    decreases k,
{
    if k == 0 {
        assert(s.take(0).len() == 0);
    } else {
        lemma_digits_value_grows_front(s, radix, k - 1);
        lemma_digits_value_step(s, radix, k - 1);
        let v = digits_value(s.take(k - 1), radix);
        assert(digit_value(s[k - 1], radix) >= 0);
        assert(v * radix >= 0) by (nonlinear_arith)
            requires
                v >= 0,
                radix >= 2,
        ;
    }
}

/// The value of `c` as a digit in base `radix`.
pub fn char_digit_value(c: char, radix: u32) -> (r: Option<u32>)
    requires
        radix == 10 || radix == 16,
    ensures
        match r {
            Some(v) => digit_value(c, radix as int) == v,
            None => digit_value(c, radix as int) == -1,
        },
{
    let n: u32 = c as u32;
    let v: u32 = if 48 <= n && n <= 57 {
        n - 48
    } else if 97 <= n && n <= 102 {
        n - 87
    } else if 65 <= n && n <= 70 {
        n - 55
    } else {
        return None;
    };
    if v < radix {
        Some(v)
    } else {
        None
    }
}

/// The number that `chars[from..to]` spells in base `radix`, where it is at
/// most `max`.
pub fn parse_unsigned_range(
    chars: &Vec<char>,
    from: usize,
    to: usize,
    radix: u32,
    max: u64,
) -> (r: Option<u64>)
    requires
        from <= to <= chars.len(),
        radix == 10 || radix == 16,
    ensures
        match parse_unsigned(chars@.subrange(from as int, to as int), radix as int, max as int) {
            Some(v) => 0 <= v <= max && r == Some(v as u64),
            None => r is None,
        },
{
    let ghost s = chars@.subrange(from as int, to as int);
    let start: usize = if from < to && chars[from] == '+' {
        from + 1
    } else {
        from
    };
    let ghost body = chars@.subrange(start as int, to as int);
    assert(body == if s.len() > 0 && s[0] == '+' {
        s.skip(1)
    } else {
        s
    });
    let ghost goal = parse_digits(body, radix as int, max as int);
    if start == to {
        return None;
    }
    let mut i: usize = start;
    while i < to
        invariant
            start <= i <= to <= chars.len(),
            radix == 10 || radix == 16,
            body == chars@.subrange(start as int, to as int),
            from <= start,
            goal == parse_digits(body, radix as int, max as int),
            goal == parse_unsigned(
                chars@.subrange(from as int, to as int),
                radix as int,
                max as int,
            ),
            forall|j: int| 0 <= j < i - start ==> digit_value(#[trigger] body[j], radix as int) >= 0,
        decreases to - i,
    {
        assert(body[i - start] == chars@[i as int]);
        if char_digit_value(chars[i], radix).is_none() {
            assert(digit_value(body[i - start], radix as int) < 0);
            return None;
        }
        i += 1;
    }
    assert(all_digits(body, radix as int));
    let mut acc: u64 = 0;
    let mut k: usize = start;
    assert(body.take(0).len() == 0);
    while k < to
        invariant
            start <= k <= to <= chars.len(),
            radix == 10 || radix == 16,
            body == chars@.subrange(start as int, to as int),
            all_digits(body, radix as int),
            from <= start,
            goal == parse_digits(body, radix as int, max as int),
            goal == parse_unsigned(
                chars@.subrange(from as int, to as int),
                radix as int,
                max as int,
            ),
            acc <= max,
            acc == digits_value(body.take(k - start), radix as int),
        decreases to - k,
    {
        assert(body[k - start] == chars@[k as int]);
        let d = match char_digit_value(chars[k], radix) {
            Some(d) => d,
            None => {
                return None;
            },
        };
        proof {
            lemma_digits_value_step(body, radix as int, k - start);
        }
        assert(acc * radix <= 0xFFFF_FFFF_FFFF_FFFF * 16) by (nonlinear_arith)
            requires
                acc <= 0xFFFF_FFFF_FFFF_FFFF,
                radix <= 16,
        ;
        let next: u128 = (acc as u128) * (radix as u128) + (d as u128);
        if next > max as u128 {
            proof {
                lemma_digits_value_grows(body, radix as int, k + 1 - start);
            }
            return None;
        }
        acc = next as u64;
        k += 1;
    }
    assert(body.take(to - start) == body);
    Some(acc)
}

} // verus!
