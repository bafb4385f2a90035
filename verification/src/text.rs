//! Character-level helpers on strings, stated over their `Seq<char>` views.

use vstd::prelude::*;

verus! {

/// The ASCII lowercase form of one character; other characters are unchanged.
pub open spec fn spec_ascii_lower_char(c: char) -> char {
    if 'A' <= c && c <= 'Z' {
        ((c as u32) + 32) as char
    } else {
        c
    }
}

/// The ASCII lowercase form of a character sequence.
pub open spec fn spec_ascii_lower(s: Seq<char>) -> Seq<char> {
    Seq::new(s.len(), |i: int| spec_ascii_lower_char(s[i]))
}

/// Appends one character to a string.
///
/// Trusted: calls `String::push`, which std documents as appending the
/// character to the end of the string.
#[verifier::external_body]
pub(crate) fn push_char(s: &mut String, c: char)
    ensures
        final(s)@ == old(s)@.push(c),
{
    s.push(c);
}

/// Number of characters in a string slice.
pub(crate) fn char_len(s: &str) -> (n: usize)
    ensures
        n == s@.len(),
{
    s.unicode_len()
}

/// Lowercases one ASCII letter, leaving every other character unchanged.
pub fn ascii_lower_char(c: char) -> (r: char)
    ensures
        r == spec_ascii_lower_char(c),
{
    if 'A' <= c && c <= 'Z' {
        let code: u32 = (c as u32) + 32;
        code as u8 as char
    } else {
        c
    }
}

/// Whether two strings hold the same characters.
pub fn str_eq(a: &str, b: &str) -> (r: bool)
    ensures
        r == (a@ == b@),
{
    let n = char_len(a);
    if n != char_len(b) {
        return false;
    }
    let mut i: usize = 0;
    while i < n
        invariant
            n == a@.len(),
            n == b@.len(),
            i <= n,
            forall|j: int| 0 <= j < i ==> a@[j] == b@[j],
        decreases n - i,
    {
        if a.get_char(i) != b.get_char(i) {
            return false;
        }
        i = i + 1;
    }
    assert(a@ =~= b@);
    true
}

/// The ASCII-lowercased copy of a string.
pub fn to_ascii_lowercase(s: &str) -> (r: String)
    ensures
        r@ == spec_ascii_lower(s@),
{
    let n = char_len(s);
    let mut out = String::new();
    let mut i: usize = 0;
    while i < n
        invariant
            n == s@.len(),
            i <= n,
            out@ =~= spec_ascii_lower(s@.take(i as int)),
        decreases n - i,
    {
        let c = ascii_lower_char(s.get_char(i));
        push_char(&mut out, c);
        i = i + 1;
        assert(out@ =~= spec_ascii_lower(s@.take(i as int)));
    }
    assert(s@.take(n as int) =~= s@);
    out
}

/// Whether two strings are equal once ASCII letters are lowercased.
pub fn eq_ignore_ascii_case(a: &str, b: &str) -> (r: bool)
    ensures
        r == (spec_ascii_lower(a@) == spec_ascii_lower(b@)),
{
    let n = char_len(a);
    if n != char_len(b) {
        assert(spec_ascii_lower(a@).len() != spec_ascii_lower(b@).len());
        return false;
    }
    let mut i: usize = 0;
    while i < n
        invariant
            n == a@.len(),
            n == b@.len(),
            i <= n,
            forall|j: int| 0 <= j < i ==> spec_ascii_lower_char(a@[j]) == spec_ascii_lower_char(b@[j]),
        decreases n - i,
    {
        if ascii_lower_char(a.get_char(i)) != ascii_lower_char(b.get_char(i)) {
            assert(spec_ascii_lower(a@)[i as int] != spec_ascii_lower(b@)[i as int]);
            return false;
        }
        i = i + 1;
    }
    assert(spec_ascii_lower(a@) =~= spec_ascii_lower(b@));
    true
}


/// The decimal digit character for `d < 10`.
pub open spec fn spec_digit_char(d: nat) -> char {
    ((48 + d) as u32) as char
}

/// The lowercase hexadecimal digit character for `d < 16`.
pub open spec fn spec_hex_char(d: nat) -> char {
    if d < 10 {
        ((48 + d) as u32) as char
    } else {
        ((87 + d) as u32) as char
    }
}

/// The decimal representation of `n`, without sign or leading zeros.
pub open spec fn spec_decimal(n: nat) -> Seq<char>
    decreases n,
{
    if n < 10 {
        seq![spec_digit_char(n)]
    } else {
        spec_decimal(n / 10).push(spec_digit_char(n % 10))
    }
}

/// Whether `c` is an ASCII letter or digit.
pub open spec fn spec_is_ascii_alphanumeric(c: char) -> bool {
    ('0' <= c && c <= '9') || ('a' <= c && c <= 'z') || ('A' <= c && c <= 'Z')
}

/// Appends the decimal representation of `n` to `out`.
pub fn push_decimal(out: &mut String, n: u64)
    ensures
        final(out)@ == old(out)@ + spec_decimal(n as nat),
    decreases n,
{
    if n >= 10 {
        push_decimal(out, n / 10);
    }
    let d: u64 = n % 10;
    let c = ((48 + d) as u8) as char;
    push_char(out, c);
    assert(n >= 10 ==> spec_decimal(n as nat) == spec_decimal((n / 10) as nat).push(spec_digit_char(
        (n % 10) as nat,
    )));
    assert(final(out)@ =~= old(out)@ + spec_decimal(n as nat));
}

/// Appends the two lowercase hexadecimal digits of `b` to `out`.
pub fn push_hex_byte(out: &mut String, b: u8)
    ensures
        final(out)@ == old(out)@ + seq![spec_hex_char((b / 16) as nat), spec_hex_char((b % 16) as nat)],
{
    let hi: u8 = b / 16;
    let lo: u8 = b % 16;
    let hc = if hi < 10 { (48 + hi) as char } else { (87 + hi) as char };
    let lc = if lo < 10 { (48 + lo) as char } else { (87 + lo) as char };
    push_char(out, hc);
    push_char(out, lc);
    assert(final(out)@ =~= old(out)@ + seq![spec_hex_char((b / 16) as nat), spec_hex_char((b % 16) as nat)]);
}

/// Appends `s` to `out`.
pub fn push_str(out: &mut String, s: &str)
    ensures
        final(out)@ == old(out)@ + s@,
{
    out.append(s);
}

/// Whether `c` is an ASCII letter or digit.
pub fn is_ascii_alphanumeric(c: char) -> (r: bool)
    ensures
        r == spec_is_ascii_alphanumeric(c),
{
    ('0' <= c && c <= '9') || ('a' <= c && c <= 'z') || ('A' <= c && c <= 'Z')
}

/// Whether every character of `s` is an ASCII digit.
pub open spec fn spec_all_digits(s: Seq<char>) -> bool {
    forall|i: int| 0 <= i < s.len() ==> '0' <= #[trigger] s[i] && s[i] <= '9'
}

/// The number the decimal digits `s` spell.
pub open spec fn spec_digits_value(s: Seq<char>) -> nat
    decreases s.len(),
{
    if s.len() == 0 {
        0
    } else {
        spec_digits_value(s.drop_last()) * 10 + ((s.last() as u32) - 48) as nat
    }
}

/// What parsing `s` as an unsigned number no larger than `max` gives: an
/// optional `+`, then one or more ASCII digits whose value is at most `max`;
/// anything else fails.
pub open spec fn spec_parse_unsigned(s: Seq<char>, max: nat) -> Option<nat> {
    let digits = if s.len() > 0 && s[0] == '+' { s.drop_first() } else { s };
    if digits.len() == 0 || !spec_all_digits(digits) || spec_digits_value(digits) > max {
        None
    } else {
        Some(spec_digits_value(digits))
    }
}

/// What parsing `s` as a `u32` gives (see [`spec_parse_unsigned`]).
pub open spec fn spec_parse_u32(s: Seq<char>) -> Option<u32> {
    match spec_parse_unsigned(s, u32::MAX as nat) {
        Some(v) => Some(v as u32),
        None => None,
    }
}

/// What parsing `s` as a `usize` gives (see [`spec_parse_unsigned`]).
pub open spec fn spec_parse_usize(s: Seq<char>) -> Option<usize> {
    match spec_parse_unsigned(s, usize::MAX as nat) {
        Some(v) => Some(v as usize),
        None => None,
    }
}

/// A longer run of digits is worth at least as much as its prefix.
pub proof fn lemma_digits_value_prefix(s: Seq<char>, k: int)
    requires
        0 <= k <= s.len(),
        spec_all_digits(s),
    ensures
        spec_digits_value(s.take(k)) <= spec_digits_value(s),
    decreases s.len(),
{
    if k < s.len() {
        assert(s.drop_last().take(k) =~= s.take(k));
        lemma_digits_value_prefix(s.drop_last(), k);
    } else {
        assert(s.take(k) =~= s);
    }
}

/// Parses the characters of `s` from `from` up to `to` as an unsigned number
/// no larger than `max` (see [`spec_parse_unsigned`]).
pub fn parse_unsigned_range(s: &str, from: usize, to: usize, max: u64) -> (r: Option<u64>)
    requires
        from <= to <= s@.len(),
    ensures
        match spec_parse_unsigned(s@.subrange(from as int, to as int), max as nat) {
            Some(v) => r == Some(v as u64),
            None => r is None,
        },
{
    let ghost whole = s@.subrange(from as int, to as int);
    let mut start = from;
    if start < to && s.get_char(start) == '+' {
        start = start + 1;
    }
    let ghost digits = s@.subrange(start as int, to as int);
    assert(digits =~= (if whole.len() > 0 && whole[0] == '+' { whole.drop_first() } else { whole }));
    if start == to {
        return None;
    }
    let mut value: u128 = 0;
    let mut i = start;
    while i < to
        invariant
            from <= start < to <= s@.len(),
            start <= i <= to,
            digits == s@.subrange(start as int, to as int),
            whole == s@.subrange(from as int, to as int),
            digits == (if whole.len() > 0 && whole[0] == '+' { whole.drop_first() } else { whole }),
            spec_all_digits(digits.take(i - start)),
            value == spec_digits_value(digits.take(i - start)),
            value <= max,
        decreases to - i,
    {
        let c = s.get_char(i);
        assert(digits.take(i + 1 - start).drop_last() =~= digits.take(i - start));
        assert(digits.take(i + 1 - start).last() == c);
        if c < '0' || c > '9' {
            assert(!spec_all_digits(digits)) by {
                assert(digits[i - start] == c);
            }
            return None;
        }
        let d: u128 = ((c as u32) - 48) as u128;
        let next: u128 = value * 10 + d;
        if next > max as u128 {
            proof {
                assert(spec_all_digits(digits.take(i + 1 - start)));
                assert(spec_digits_value(digits.take(i + 1 - start)) == next);
                if spec_all_digits(digits) {
                    lemma_digits_value_prefix(digits, i + 1 - start);
                }
            }
            return None;
        }
        value = next;
        i = i + 1;
    }
    assert(digits.take(to - start) =~= digits);
    Some(value as u64)
}

/// Parses the characters of `s` from `from` up to `to` as a `u32` (see
/// [`spec_parse_u32`]).
pub fn parse_u32_range(s: &str, from: usize, to: usize) -> (r: Option<u32>)
    requires
        from <= to <= s@.len(),
    ensures
        r == spec_parse_u32(s@.subrange(from as int, to as int)),
{
    match parse_unsigned_range(s, from, to, u32::MAX as u64) {
        Some(v) => Some(v as u32),
        None => None,
    }
}

/// Parses the characters of `s` from `from` up to `to` as a `usize` (see
/// [`spec_parse_usize`]).
pub fn parse_usize_range(s: &str, from: usize, to: usize) -> (r: Option<usize>)
    requires
        from <= to <= s@.len(),
    ensures
        r == spec_parse_usize(s@.subrange(from as int, to as int)),
{
    match parse_unsigned_range(s, from, to, usize::MAX as u64) {
        Some(v) => Some(v as usize),
        None => None,
    }
}

} // verus!
