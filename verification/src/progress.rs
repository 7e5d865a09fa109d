//! Recognising the downloader's machine-readable progress lines.
//!
//! A progress line is the marker `[download]`, any number of spaces, a
//! decimal number with an optional fraction, and a percent sign; what
//! follows the percent sign is not looked at. Every other line is free text.

use vstd::prelude::*;
use crate::text::{chars_of, has_prefix, starts_with};

verus! {

/// Largest progress value: one thousand tenths of a percent.
pub const FULL: u16 = 1000;

/// The marker that opens a progress line.
pub open spec fn marker() -> Seq<char> {
    "[download]"@
}

pub open spec fn is_digit(c: char) -> bool {
    '0' <= c && c <= '9'
}

pub open spec fn digit_value(c: char) -> nat {
    (c as u32 - '0' as u32) as nat
}

/// Index of the first character at or after `i` that is not a space.
pub open spec fn after_spaces(s: Seq<char>, i: int) -> int
    decreases s.len() - i,
{
    if 0 <= i < s.len() && s[i] == ' ' {
        after_spaces(s, i + 1)
    } else {
        i
    }
}

/// Index of the first character at or after `i` that is not a decimal digit.
pub open spec fn after_digits(s: Seq<char>, i: int) -> int
    decreases s.len() - i,
{
    if 0 <= i < s.len() && is_digit(s[i]) {
        after_digits(s, i + 1)
    } else {
        i
    }
}

/// The number that a run of decimal digits writes.
pub open spec fn decimal(digits: Seq<char>) -> nat
    decreases digits.len(),
{
    if digits.len() == 0 {
        0
    } else {
        decimal(digits.drop_last()) * 10 + digit_value(digits.last())
    }
}

/// Progress in tenths of a percent, from the whole percents and the first
/// digit of the fraction. More than a hundred percent counts as a hundred.
pub open spec fn tenths(whole: nat, fraction: nat) -> nat {
    if whole * 10 + fraction > FULL {
        FULL as nat
    } else {
        whole * 10 + fraction
    }
}

/// The progress that a line reports, in tenths of a percent, or `None` for
/// a line that is no progress line.
pub open spec fn progress_of(line: Seq<char>) -> Option<nat> {
    if !starts_with(line, marker()) {
        None
    } else {
        let a = after_spaces(line, marker().len() as int);
        let b = after_digits(line, a);
        if b == a || b >= line.len() {
            None
        } else if line[b] == '%' {
            Some(tenths(decimal(line.subrange(a, b)), 0))
        } else if line[b] == '.' {
            let c = after_digits(line, b + 1);
            if c == b + 1 || c >= line.len() || line[c] != '%' {
                None
            } else {
                Some(tenths(decimal(line.subrange(a, b)), digit_value(line[b + 1])))
            }
        } else {
            None
        }
    }
}

fn skip_spaces(s: &Vec<char>, from: usize) -> (to: usize)
    requires
        from <= s@.len(),
    ensures
        to == after_spaces(s@, from as int),
        from <= to <= s@.len(),
{
    let mut i = from;
    while i < s.len() && s[i] == ' '
        invariant
            from <= i <= s@.len(),
            after_spaces(s@, i as int) == after_spaces(s@, from as int),
        decreases s@.len() - i,
    {
        i = i + 1;
    }
    i
}

fn digit_of(c: char) -> (r: Option<u16>)
    ensures
        r is Some == is_digit(c),
        r is Some ==> r->Some_0 == digit_value(c) && r->Some_0 <= 9,
{
    if c >= '0' && c <= '9' {
        Some((c as u32 - '0' as u32) as u16)
    } else {
        None
    }
}

/// Reads the run of digits that starts at `from`. Returns where it ends
/// and its value, which is cut off at `FULL`.
fn read_digits(s: &Vec<char>, from: usize) -> (r: (usize, u16))
    requires
        from <= s@.len(),
    ensures
        r.0 == after_digits(s@, from as int),
        from <= r.0 <= s@.len(),
        r.1 == vstd::math::min(decimal(s@.subrange(from as int, r.0 as int)) as int, FULL as int),
{
    let mut i = from;
    let mut value: u16 = 0;
    proof {
        assert(s@.subrange(from as int, from as int) =~= Seq::<char>::empty());
    }
    while i < s.len()
        invariant
            from <= i <= s@.len(),
            after_digits(s@, i as int) == after_digits(s@, from as int),
            value == vstd::math::min(
                decimal(s@.subrange(from as int, i as int)) as int,
                FULL as int,
            ),
        ensures
            from <= i <= s@.len(),
            i == after_digits(s@, from as int),
            value == vstd::math::min(
                decimal(s@.subrange(from as int, i as int)) as int,
                FULL as int,
            ),
        decreases s@.len() - i,
    {
        match digit_of(s[i]) {
            None => {
                break ;
            },
            Some(d) => {
                proof {
                    assert(s@.subrange(from as int, i + 1).drop_last() =~= s@.subrange(
                        from as int,
                        i as int,
                    ));
                }
                let next = value * 10 + d;
                value = if next > FULL {
                    FULL
                } else {
                    next
                };
                i = i + 1;
            },
        }
    }
    (i, value)
}

/// The progress that a line of the downloader's output reports, in tenths
/// of a percent.
pub fn parse_progress(line: &str) -> (r: Option<u16>)
    ensures
        r is Some == progress_of(line@) is Some,
        r is Some ==> r->Some_0 == progress_of(line@)->Some_0 && r->Some_0 <= FULL,
{
    let chars = chars_of(line);
    let mark = chars_of("[download]");
    if !has_prefix(&chars, &mark) {
        return None;
    }
    let a = skip_spaces(&chars, mark.len());
    let (b, whole) = read_digits(&chars, a);
    if b == a || b >= chars.len() {
        return None;
    }
    if chars[b] == '%' {
        let total = whole * 10;
        Some(if total > FULL { FULL } else { total })
    } else if chars[b] == '.' {
        let (c, _) = read_digits(&chars, b + 1);
        if c == b + 1 || c >= chars.len() || chars[c] != '%' {
            None
        } else {
            match digit_of(chars[b + 1]) {
                Some(f) => {
                    let total = whole * 10 + f;
                    Some(if total > FULL { FULL } else { total })
                },
                None => None,
            }
        }
    } else {
        None
    }
}

} // verus!
