//! Numbers as text: which strings write a whole number and which a decimal one.

use vstd::prelude::*;
use crate::text::{ascii_lower_seq, lowercase, str_eq, string_of_range};

verus! {

pub open spec fn is_digit(c: char) -> bool {
    '0' <= c && c <= '9'
}

pub open spec fn is_sign(c: char) -> bool {
    c == '+' || c == '-'
}

/// Length of the longest run of digits that starts at `i`.
pub open spec fn digit_run(s: Seq<char>, i: int) -> nat
    decreases s.len() - i,
{
    if 0 <= i < s.len() && is_digit(s[i]) {
        1 + digit_run(s, i + 1)
    } else {
        0
    }
}

/// The number that the digits `s[from..to]` write.
pub open spec fn digits_value(s: Seq<char>, from: int, to: int) -> int
    decreases to - from,
{
    if to <= from {
        0
    } else {
        digits_value(s, from, to - 1) * 10 + (s[to - 1] as int - 48)
    }
}

/// Where the digits begin: behind a sign, if there is one.
pub open spec fn digits_start(s: Seq<char>) -> int {
    if s.len() > 0 && is_sign(s[0]) {
        1
    } else {
        0
    }
}

/// The whole number that `s` writes: an optional sign and one digit or more,
/// nothing else.
pub open spec fn whole_number(s: Seq<char>) -> Option<int> {
    let start = digits_start(s);
    if start < s.len() && start + digit_run(s, start) == s.len() {
        let v = digits_value(s, start, s.len() as int);
        Some(
            if s[0] == '-' {
                -v
            } else {
                v
            },
        )
    } else {
        None
    }
}

/// The whole number that `s` writes, where it fits in 64 bits with a sign.
pub open spec fn parsed_i64(s: Seq<char>) -> Option<i64> {
    match whole_number(s) {
        Some(v) => if i64::MIN <= v <= i64::MAX {
            Some(v as i64)
        } else {
            None
        },
        None => None,
    }
}

/// What kind of decimal number a text writes.
#[derive(Clone, Copy, Debug, PartialEq, Eq, Structural)]
pub enum FloatSyntax {
    /// Digits with an optional point and an optional exponent.
    Number,
    /// `inf`, `infinity` or `nan`: no number that JSON can hold.
    Special,
}

/// Whether `s` is one of the words for a value that is no finite number.
pub open spec fn is_special_word(s: Seq<char>) -> bool {
    let low = ascii_lower_seq(s);
    low == "inf"@ || low == "infinity"@ || low == "nan"@
}

/// The kind of decimal number that `s` writes, by this grammar:
///
/// ```text
/// Float  ::= Sign? ( 'inf' | 'infinity' | 'nan' | Number )
/// Number ::= ( Digit+ | Digit+ '.' Digit* | Digit* '.' Digit+ ) Exp?
/// Exp    ::= 'e' Sign? Digit+
/// ```
///
/// with the words and the `e` in either case.
pub open spec fn float_syntax(s: Seq<char>) -> Option<FloatSyntax> {
    let start = digits_start(s);
    if is_special_word(s.subrange(start, s.len() as int)) {
        Some(FloatSyntax::Special)
    } else {
        let a = digit_run(s, start);
        let p = start + a;
        let pointed = p < s.len() && s[p] == '.';
        let b = if pointed {
            digit_run(s, p + 1)
        } else {
            0
        };
        let q = if pointed {
            p + 1 + b
        } else {
            p
        };
        if a + b == 0 {
            None
        } else if q == s.len() {
            Some(FloatSyntax::Number)
        } else if s[q] == 'e' || s[q] == 'E' {
            let r = if q + 1 < s.len() && is_sign(s[q + 1]) {
                q + 2
            } else {
                q + 1
            };
            let c = digit_run(s, r);
            if c > 0 && r + c == s.len() {
                Some(FloatSyntax::Number)
            } else {
                None
            }
        } else {
            None
        }
    }
}

proof fn lemma_digit_run(s: Seq<char>, i: int, j: int)
    requires
        0 <= i <= j <= s.len(),
        forall|k: int| i <= k < j ==> is_digit(s[k]),
    ensures
        digit_run(s, i) == (j - i) + digit_run(s, j),
    decreases j - i,
{
    if i < j {
        lemma_digit_run(s, i + 1, j);
    }
}

proof fn lemma_digits_grow(s: Seq<char>, from: int, to: int, later: int)
    requires
        0 <= from <= to <= later <= s.len(),
        forall|k: int| from <= k < later ==> is_digit(s[k]),
    ensures
        0 <= digits_value(s, from, to) <= digits_value(s, from, later),
    decreases later - from,
{
    if to < later {
        lemma_digits_grow(s, from, to, later - 1);
    } else if from < to {
        lemma_digits_grow(s, from, to - 1, later - 1);
    }
}

/// Index just behind the digits that start at `i`.
pub fn skip_digits(chars: &Vec<char>, i: usize) -> (j: usize)
    requires
        i <= chars.len(),
    ensures
        j == i + digit_run(chars@, i as int),
        i <= j <= chars.len(),
{
    let mut j: usize = i;
    while j < chars.len() && '0' <= chars[j] && chars[j] <= '9'
        invariant
            i <= j <= chars.len(),
            forall|k: int| i <= k < j ==> is_digit(chars@[k]),
        decreases chars.len() - j,
    {
        j += 1;
    }
    proof {
        lemma_digit_run(chars@, i as int, j as int);
    }
    j
}

/// The whole number that the characters write, where it fits in 64 bits.
pub fn parse_i64(chars: &Vec<char>) -> (r: Option<i64>)
    ensures
        r == parsed_i64(chars@),
{
    let n = chars.len();
    let start: usize = if n > 0 && (chars[0] == '+' || chars[0] == '-') {
        1
    } else {
        0
    };
    if start >= n {
        return None;
    }
    let end = skip_digits(chars, start);
    if end != n {
        return None;
    }
    proof {
        assert forall|k: int| start <= k < n implies is_digit(chars@[k]) by {
            if !is_digit(chars@[k]) {
                lemma_digit_run_stops(chars@, start as int, k);
            }
        }
    }
    let negative = chars[0] == '-';
    let limit: u64 = 9223372036854775808;
    let mut magnitude: u64 = 0;
    let mut k: usize = start;
    while k < n
        invariant
            start <= k <= n,
            n == chars.len(),
            limit == 9223372036854775808,
            start == digits_start(chars@),
            start < n,
            start + digit_run(chars@, start as int) == n,
            forall|x: int| start <= x < n ==> is_digit(chars@[x]),
            magnitude == digits_value(chars@, start as int, k as int),
            magnitude <= limit,
        decreases n - k,
    {
        let d: u64 = (chars[k] as u64) - 48;
        if magnitude > (limit - d) / 10 {
            proof {
                assert(magnitude * 10 + d > limit);
                assert(digits_value(chars@, start as int, k + 1) == magnitude * 10 + d);
                lemma_digits_grow(chars@, start as int, k + 1, n as int);
                let v = digits_value(chars@, start as int, n as int);
                assert(v > limit);
            }
            return None;
        }
        magnitude = magnitude * 10 + d;
        k += 1;
    }
    if negative {
        if magnitude == limit {
            Some(i64::MIN)
        } else {
            Some(-(magnitude as i64))
        }
    } else if magnitude == limit {
        None
    } else {
        Some(magnitude as i64)
    }
}

proof fn lemma_digit_run_stops(s: Seq<char>, i: int, k: int)
    requires
        0 <= i <= k < s.len(),
        !is_digit(s[k]),
    ensures
        i + digit_run(s, i) <= k,
    decreases k - i,
{
    if i < k && is_digit(s[i]) {
        lemma_digit_run_stops(s, i + 1, k);
    }
}

/// The kind of decimal number that the characters write.
pub fn float_kind(chars: &Vec<char>) -> (r: Option<FloatSyntax>)
    ensures
        r == float_syntax(chars@),
{
    let n = chars.len();
    let start: usize = if n > 0 && (chars[0] == '+' || chars[0] == '-') {
        1
    } else {
        0
    };
    let body = string_of_range(chars, start, n);
    let low = lowercase(body.as_str());
    if str_eq(low.as_str(), "inf") || str_eq(low.as_str(), "infinity") || str_eq(
        low.as_str(),
        "nan",
    ) {
        return Some(FloatSyntax::Special);
    }
    let p = skip_digits(chars, start);
    let pointed = p < n && chars[p] == '.';
    let q = if pointed {
        skip_digits(chars, p + 1)
    } else {
        p
    };
    let digits = if pointed {
        (p - start) + (q - (p + 1))
    } else {
        p - start
    };
    if digits == 0 {
        return None;
    }
    if q == n {
        return Some(FloatSyntax::Number);
    }
    if chars[q] != 'e' && chars[q] != 'E' {
        return None;
    }
    let r: usize = if q + 1 < n && (chars[q + 1] == '+' || chars[q + 1] == '-') {
        q + 2
    } else {
        q + 1
    };
    let end = skip_digits(chars, r);
    if end > r && end == n {
        Some(FloatSyntax::Number)
    } else {
        None
    }
}

} // verus!
