//! Character-level helpers shared by the parsers: conversion between strings
//! and character vectors, trimming, and decimal numbers.

use vstd::prelude::*;

verus! {

/// `String::push` appends one character at the end of the string and leaves
/// everything before it unchanged.
pub assume_specification[ String::push ](s: &mut String, c: char)
    ensures
        final(s)@ == old(s)@.push(c),
;

/// Collects the characters of `s` in order.
pub fn chars_of(s: &str) -> (out: Vec<char>)
    ensures
        out@ == s@,
{
    let mut out: Vec<char> = Vec::new();
    for c in it: s.chars()
        invariant
            it.seq() == s@,
            out@ == s@.take(it.index() as int),
    {
        out.push(c);
    }
    out
}

/// Appends `chars[from..to]` to `out`.
pub fn push_chars(out: &mut String, chars: &[char], from: usize, to: usize)
    requires
        from <= to <= chars@.len(),
    ensures
        final(out)@ == old(out)@ + chars@.subrange(from as int, to as int),
{
    let mut i: usize = from;
    while i < to
        invariant
            from <= i <= to <= chars@.len(),
            out@ == old(out)@ + chars@.subrange(from as int, i as int),
        decreases to - i,
    {
        out.push(chars[i]);
        i += 1;
        assert(chars@.subrange(from as int, i as int) == chars@.subrange(from as int, i - 1).push(
            chars@[i - 1],
        ));
    }
}

/// Builds the string made of `chars[from..to]`.
pub fn string_of(chars: &[char], from: usize, to: usize) -> (out: String)
    requires
        from <= to <= chars@.len(),
    ensures
        out@ == chars@.subrange(from as int, to as int),
{
    let mut out = String::new();
    push_chars(&mut out, chars, from, to);
    out
}

/// The characters that count as white space: the Unicode `White_Space` set.
pub open spec fn is_space(c: char) -> bool {
    ||| '\u{9}' <= c <= '\u{d}'
    ||| c == ' '
    ||| c == '\u{85}'
    ||| c == '\u{a0}'
    ||| c == '\u{1680}'
    ||| '\u{2000}' <= c <= '\u{200a}'
    ||| c == '\u{2028}'
    ||| c == '\u{2029}'
    ||| c == '\u{202f}'
    ||| c == '\u{205f}'
    ||| c == '\u{3000}'
}

pub fn is_whitespace(c: char) -> (b: bool)
    ensures
        b == is_space(c),
{
    ('\u{9}' <= c && c <= '\u{d}') || c == ' ' || c == '\u{85}' || c == '\u{a0}' || c == '\u{1680}'
        || ('\u{2000}' <= c && c <= '\u{200a}') || c == '\u{2028}' || c == '\u{2029}' || c
        == '\u{202f}' || c == '\u{205f}' || c == '\u{3000}'
}


/// `s` without its leading white space.
pub open spec fn trim_start(s: Seq<char>) -> Seq<char>
    decreases s.len(),
{
    if s.len() > 0 && is_space(s[0]) {
        trim_start(s.drop_first())
    } else {
        s
    }
}

/// `s` without its trailing white space.
pub open spec fn trim_end(s: Seq<char>) -> Seq<char>
    decreases s.len(),
{
    if s.len() > 0 && is_space(s.last()) {
        trim_end(s.drop_last())
    } else {
        s
    }
}

/// `s` without leading and trailing white space.
pub open spec fn trim(s: Seq<char>) -> Seq<char> {
    trim_end(trim_start(s))
}

/// Finds the bounds of `chars[from..to]` once leading and trailing white
/// space is removed.
pub fn trim_range(chars: &[char], from: usize, to: usize) -> (r: (usize, usize))
    requires
        from <= to <= chars@.len(),
    ensures
        from <= r.0 <= r.1 <= to,
        chars@.subrange(r.0 as int, r.1 as int) == trim(chars@.subrange(from as int, to as int)),
{
    let mut a: usize = from;
    while a < to && is_whitespace(chars[a])
        invariant
            from <= a <= to <= chars@.len(),
            trim_start(chars@.subrange(from as int, to as int)) == trim_start(
                chars@.subrange(a as int, to as int),
            ),
        decreases to - a,
    {
        assert(chars@.subrange(a as int, to as int).drop_first() == chars@.subrange(
            a + 1,
            to as int,
        ));
        a += 1;
    }
    let mut b: usize = to;
    while a < b && is_whitespace(chars[b - 1])
        invariant
            a <= b <= to <= chars@.len(),
            trim_end(chars@.subrange(a as int, to as int)) == trim_end(
                chars@.subrange(a as int, b as int),
            ),
        decreases b - a,
    {
        assert(chars@.subrange(a as int, b as int).drop_last() == chars@.subrange(
            a as int,
            b - 1,
        ));
        b -= 1;
    }
    (a, b)
}

/// Whether `c` is one of the ten ASCII digits.
pub open spec fn is_digit(c: char) -> bool {
    '0' <= c <= '9'
}

/// The number a digit stands for.
pub open spec fn digit_of(c: char) -> nat {
    (c as int - '0' as int) as nat
}

pub open spec fn all_digits(s: Seq<char>) -> bool {
    forall|i: int| 0 <= i < s.len() ==> is_digit(#[trigger] s[i])
}

/// The number that a run of digits writes in base ten.
pub open spec fn digits_value(s: Seq<char>) -> nat
    decreases s.len(),
{
    if s.len() == 0 {
        0
    } else {
        digits_value(s.drop_last()) * 10 + digit_of(s.last())
    }
}

/// Reading of an unsigned decimal number no greater than `max`: an optional
/// `+`, then one or more digits. Anything else has no reading.
pub open spec fn parse_unsigned(s: Seq<char>, max: nat) -> Option<nat> {
    let body = if s.len() > 0 && s[0] == '+' {
        s.drop_first()
    } else {
        s
    };
    if body.len() > 0 && all_digits(body) && digits_value(body) <= max {
        Some(digits_value(body))
    } else {
        None
    }
}

/// Reading of a signed decimal number within `min..=max`: an optional `+`
/// or `-`, then one or more digits.
pub open spec fn parse_signed(s: Seq<char>, min: int, max: int) -> Option<int> {
    let negative = s.len() > 0 && s[0] == '-';
    let body = if s.len() > 0 && (s[0] == '+' || s[0] == '-') {
        s.drop_first()
    } else {
        s
    };
    let value = if negative {
        -(digits_value(body) as int)
    } else {
        digits_value(body) as int
    };
    if body.len() > 0 && all_digits(body) && min <= value <= max {
        Some(value)
    } else {
        None
    }
}

/// A prefix of a run of digits writes a number no greater than the whole.
pub proof fn lemma_digits_value_prefix(s: Seq<char>, n: int)
    requires
        0 <= n <= s.len(),
    ensures
        digits_value(s.take(n)) <= digits_value(s),
    decreases s.len() - n,
{
    if n == s.len() {
        assert(s.take(n) == s);
    } else {
        lemma_digits_value_prefix(s, n + 1);
        assert(s.take(n + 1).drop_last() == s.take(n));
    }
}

/// Reads the digits `chars[from..to]` as a number no greater than `max`.
/// Returns `None` when the range is empty, holds anything but digits, or
/// writes a larger number.
pub fn parse_digits(chars: &[char], from: usize, to: usize, max: u64) -> (r: Option<u64>)
    requires
        from <= to <= chars@.len(),
    ensures
        r == ({
            let body = chars@.subrange(from as int, to as int);
            if body.len() > 0 && all_digits(body) && digits_value(body) <= max {
                Some(digits_value(body) as u64)
            } else {
                None
            }
        }),
{
    if from == to {
        return None;
    }
    let ghost body = chars@.subrange(from as int, to as int);
    let mut acc: u64 = 0;
    let mut i: usize = from;
    while i < to
        invariant
            from <= i <= to <= chars@.len(),
            body == chars@.subrange(from as int, to as int),
            all_digits(body.take(i - from)),
            acc == digits_value(body.take(i - from)),
            acc <= max,
        decreases to - i,
    {
        let c = chars[i];
        assert(body[i - from] == c);
        if !('0' <= c && c <= '9') {
            return None;
        }
        let d: u64 = (c as u64) - ('0' as u64);
        proof {
            assert(body.take(i - from + 1).drop_last() == body.take(i - from));
            lemma_digits_value_prefix(body, i - from + 1);
        }
        if max < d || acc > (max - d) / 10 {
            return None;
        }
        acc = acc * 10 + d;
        i += 1;
    }
    assert(body.take(to - from) == body);
    Some(acc)
}


/// Reads `chars[from..to]` as an unsigned decimal number no greater than
/// `max`, with an optional leading `+`.
pub fn parse_unsigned_range(chars: &[char], from: usize, to: usize, max: u64) -> (r: Option<u64>)
    requires
        from <= to <= chars@.len(),
    ensures
        r == match parse_unsigned(chars@.subrange(from as int, to as int), max as nat) {
            Some(v) => Some(v as u64),
            None => None,
        },
{
    let ghost s = chars@.subrange(from as int, to as int);
    if from < to && chars[from] == '+' {
        assert(s[0] == '+');
        assert(s.drop_first() == chars@.subrange(from + 1, to as int));
        parse_digits(chars, from + 1, to, max)
    } else {
        assert(s.len() > 0 ==> s[0] == chars@[from as int]);
        parse_digits(chars, from, to, max)
    }
}

/// Reads `chars[from..to]` as a decimal number that fits in `i32`, with an
/// optional leading `+` or `-`.
pub fn parse_i32_range(chars: &[char], from: usize, to: usize) -> (r: Option<i32>)
    requires
        from <= to <= chars@.len(),
    ensures
        r == match parse_signed(
            chars@.subrange(from as int, to as int),
            i32::MIN as int,
            i32::MAX as int,
        ) {
            Some(v) => Some(v as i32),
            None => None,
        },
{
    let ghost s = chars@.subrange(from as int, to as int);
    if from < to && chars[from] == '-' {
        assert(s[0] == '-');
        assert(s.drop_first() == chars@.subrange(from + 1, to as int));
        match parse_digits(chars, from + 1, to, 2147483648) {
            Some(v) => Some((0 - (v as i64)) as i32),
            None => None,
        }
    } else if from < to && chars[from] == '+' {
        assert(s[0] == '+');
        assert(s.drop_first() == chars@.subrange(from + 1, to as int));
        match parse_digits(chars, from + 1, to, 2147483647) {
            Some(v) => Some(v as i32),
            None => None,
        }
    } else {
        assert(s.len() > 0 ==> s[0] == chars@[from as int]);
        match parse_digits(chars, from, to, 2147483647) {
            Some(v) => Some(v as i32),
            None => None,
        }
    }
}

/// The character that writes the digit `d`.
pub open spec fn digit_char(d: nat) -> char
    recommends
        d < 10,
{
    (d + '0' as nat) as char
}

/// The number `n` written in base ten, without sign or leading zeros.
pub open spec fn decimal(n: nat) -> Seq<char>
    decreases n,
{
    if n < 10 {
        seq![digit_char(n)]
    } else {
        decimal(n / 10).push(digit_char(n % 10))
    }
}

/// The integer `v` written in base ten, with `-` in front when negative.
pub open spec fn signed_decimal(v: int) -> Seq<char> {
    if v < 0 {
        seq!['-'] + decimal((-v) as nat)
    } else {
        decimal(v as nat)
    }
}

/// Reading a written number gives the number back: `decimal(n)` is a
/// non-empty run of digits whose value is `n`.
pub proof fn lemma_decimal_round_trip(n: nat)
    ensures
        decimal(n).len() > 0,
        all_digits(decimal(n)),
        digits_value(decimal(n)) == n,
    decreases n,
{
    if n < 10 {
        let s = decimal(n);
        assert(s.len() == 1);
        assert(s[0] == digit_char(n));
        assert(is_digit(digit_char(n)));
        assert(s.drop_last().len() == 0);
        assert(digits_value(s.drop_last()) == 0);
        assert(s.last() == digit_char(n));
        assert(digit_of(digit_char(n)) == n);
    } else {
        lemma_decimal_round_trip(n / 10);
        let s = decimal(n);
        let t = decimal(n / 10);
        assert(s == t.push(digit_char(n % 10)));
        assert(s.drop_last() == t);
        assert(s.last() == digit_char(n % 10));
        assert(is_digit(digit_char(n % 10)));
        assert(digit_of(digit_char(n % 10)) == n % 10);
        assert forall|i: int| 0 <= i < s.len() implies is_digit(#[trigger] s[i]) by {
            if i < t.len() {
                assert(s[i] == t[i]);
            }
        }
    }
}

/// Appends `n`, written in base ten, to `out`.
pub fn push_decimal_wide(out: &mut String, n: u128)
    ensures
        final(out)@ == old(out)@ + decimal(n as nat),
    decreases n,
{
    if n >= 10 {
        push_decimal_wide(out, n / 10);
    }
    let d: u8 = (n % 10) as u8;
    let c: char = (d + 48u8) as char;
    assert(c == digit_char((n % 10) as nat));
    out.push(c);
    proof {
        if n < 10 {
            assert(old(out)@.push(c) == old(out)@ + decimal(n as nat));
        } else {
            assert((old(out)@ + decimal((n / 10) as nat)).push(c) == old(out)@ + decimal(
                n as nat,
            ));
        }
    }
}

/// Appends `n`, written in base ten, to `out`.
pub fn push_decimal(out: &mut String, n: u64)
    ensures
        final(out)@ == old(out)@ + decimal(n as nat),
{
    push_decimal_wide(out, n as u128);
}

/// Appends `v`, written in base ten with its sign, to `out`.
pub fn push_signed_decimal(out: &mut String, v: i64)
    ensures
        final(out)@ == old(out)@ + signed_decimal(v as int),
{
    if v < 0 {
        out.push('-');
        let magnitude: u64 = if v == i64::MIN {
            9223372036854775808u64
        } else {
            (0 - v) as u64
        };
        push_decimal(out, magnitude);
        assert(old(out)@.push('-') + decimal(magnitude as nat) == old(out)@ + (seq!['-']
            + decimal(magnitude as nat)));
    } else {
        push_decimal(out, v as u64);
    }
}


/// Whether `s` ends with `suffix`.
pub open spec fn has_suffix(s: Seq<char>, suffix: Seq<char>) -> bool {
    suffix.len() <= s.len() && s.subrange(s.len() - suffix.len(), s.len() as int) == suffix
}

/// Whether `s` starts with `prefix`.
pub open spec fn has_prefix(s: Seq<char>, prefix: Seq<char>) -> bool {
    prefix.len() <= s.len() && s.subrange(0, prefix.len() as int) == prefix
}

/// Whether `chars[from..to]` is the same text as `other`.
pub fn same_text(chars: &[char], from: usize, to: usize, other: &str) -> (b: bool)
    requires
        from <= to <= chars@.len(),
    ensures
        b == (chars@.subrange(from as int, to as int) == other@),
{
    let expected = chars_of(other);
    if expected.len() != to - from {
        return false;
    }
    let ghost s = chars@.subrange(from as int, to as int);
    let mut i: usize = 0;
    while i < expected.len()
        invariant
            from <= to <= chars@.len(),
            expected@ == other@,
            expected@.len() == to - from,
            s == chars@.subrange(from as int, to as int),
            i <= expected@.len(),
            forall|j: int| 0 <= j < i ==> s[j] == expected@[j],
        decreases expected@.len() - i,
    {
        if chars[from + i] != expected[i] {
            assert(s[i as int] != expected@[i as int]);
            return false;
        }
        i += 1;
    }
    assert(s =~= expected@);
    true
}

/// Whether `chars` ends with the text `suffix`.
pub fn ends_with(chars: &[char], suffix: &str) -> (b: bool)
    ensures
        b == has_suffix(chars@, suffix@),
{
    let n = suffix.unicode_len();
    if n > chars.len() {
        return false;
    }
    same_text(chars, chars.len() - n, chars.len(), suffix)
}

/// Whether `chars` starts with the text `prefix`.
pub fn starts_with(chars: &[char], prefix: &str) -> (b: bool)
    ensures
        b == has_prefix(chars@, prefix@),
{
    let n = prefix.unicode_len();
    if n > chars.len() {
        return false;
    }
    same_text(chars, 0, n, prefix)
}


/// Where `c` stands last in `s`, if it stands there at all.
pub open spec fn last_index_of(s: Seq<char>, c: char) -> Option<int>
    decreases s.len(),
{
    if s.len() == 0 {
        None
    } else if s.last() == c {
        Some(s.len() - 1)
    } else {
        last_index_of(s.drop_last(), c)
    }
}

/// Where `c` stands first in `s`, if it stands there at all.
pub open spec fn first_index_of(s: Seq<char>, c: char) -> Option<int>
    decreases s.len(),
{
    if s.len() == 0 {
        None
    } else if s[0] == c {
        Some(0)
    } else {
        match first_index_of(s.drop_first(), c) {
            Some(i) => Some(i + 1),
            None => None,
        }
    }
}

/// Finds the last `c` in `chars[from..to]`; the index counts from `from`.
pub fn find_last(chars: &[char], from: usize, to: usize, c: char) -> (r: Option<usize>)
    requires
        from <= to <= chars@.len(),
    ensures
        match last_index_of(chars@.subrange(from as int, to as int), c) {
            Some(i) => 0 <= i < to - from && r == Some(i as usize),
            None => r is None,
        },
{
    let mut end: usize = to;
    while end > from
        invariant
            from <= end <= to <= chars@.len(),
            last_index_of(chars@.subrange(from as int, to as int), c) == last_index_of(
                chars@.subrange(from as int, end as int),
                c,
            ),
        decreases end - from,
    {
        if chars[end - 1] == c {
            return Some(end - 1 - from);
        }
        assert(chars@.subrange(from as int, end as int).drop_last() == chars@.subrange(
            from as int,
            end - 1,
        ));
        end -= 1;
    }
    None
}

/// `first_index_of` finds an index that holds `c`, with no `c` before it,
/// and finds none only where there is no `c`.
pub proof fn lemma_first_index_of(s: Seq<char>, c: char)
    ensures
        match first_index_of(s, c) {
            Some(i) => 0 <= i < s.len() && s[i] == c && forall|j: int| 0 <= j < i ==> s[j] != c,
            None => forall|j: int| 0 <= j < s.len() ==> s[j] != c,
        },
    decreases s.len(),
{
    if s.len() > 0 && s[0] != c {
        let t = s.drop_first();
        lemma_first_index_of(t, c);
        match first_index_of(t, c) {
            Some(i) => {
                assert forall|j: int| 0 <= j < i + 1 implies s[j] != c by {
                    if j > 0 {
                        assert(s[j] == t[j - 1]);
                    }
                }
            },
            None => {
                assert forall|j: int| 0 <= j < s.len() implies s[j] != c by {
                    if j > 0 {
                        assert(s[j] == t[j - 1]);
                    }
                }
            },
        }
    }
}

/// Finds the first `c` in `chars[from..to]`; the index counts from `from`.
pub fn find_first(chars: &[char], from: usize, to: usize, c: char) -> (r: Option<usize>)
    requires
        from <= to <= chars@.len(),
    ensures
        match first_index_of(chars@.subrange(from as int, to as int), c) {
            Some(i) => 0 <= i < to - from && r == Some(i as usize),
            None => r is None,
        },
{
    let ghost s = chars@.subrange(from as int, to as int);
    let mut i: usize = from;
    while i < to
        invariant
            from <= i <= to <= chars@.len(),
            s == chars@.subrange(from as int, to as int),
            forall|j: int| 0 <= j < i - from ==> s[j] != c,
        decreases to - i,
    {
        if chars[i] == c {
            proof {
                assert(s[i - from] == c);
                lemma_first_index_of(s, c);
            }
            return Some(i - from);
        }
        assert(s[i - from] != c);
        i += 1;
    }
    proof {
        lemma_first_index_of(s, c);
    }
    None
}

} // verus!
