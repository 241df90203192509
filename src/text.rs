//! Character-level helpers over the text of a chart: space splitting, quote
//! trimming, case-insensitive keys and decimal integers.
use vstd::prelude::*;

verus! {

/// Why a decimal integer could not be read.
#[derive(Debug, Clone, Copy, PartialEq, Eq, Structural)]
pub enum ParseIntError {
    /// The text is empty.
    Empty,
    /// A character is not a decimal digit (or the text is a lone sign).
    InvalidDigit,
    /// The value does not fit the target type.
    PosOverflow,
}

pub open spec fn is_digit(c: char) -> bool {
    '0' <= c && c <= '9'
}

pub open spec fn digit_value(c: char) -> nat {
    (c as u32 - '0' as u32) as nat
}

/// Reads the digits `d` left to right, failing at the first character that is
/// not a digit or at the first prefix whose value exceeds `max`.
pub open spec fn scan_digits(d: Seq<char>, max: u64) -> Result<u64, ParseIntError>
    decreases d.len(),
{
    if d.len() == 0 {
        Ok(0)
    } else {
        match scan_digits(d.drop_last(), max) {
            Err(e) => Err(e),
            Ok(v) => if !is_digit(d.last()) {
                Err(ParseIntError::InvalidDigit)
            } else if v * 10 + digit_value(d.last()) > max {
                Err(ParseIntError::PosOverflow)
            } else {
                Ok((v * 10 + digit_value(d.last())) as u64)
            },
        }
    }
}

/// An unsigned decimal no greater than `max`: an optional `+` followed by at
/// least one digit, nothing else.
pub open spec fn decimal(s: Seq<char>, max: u64) -> Result<u64, ParseIntError> {
    if s.len() == 0 {
        Err(ParseIntError::Empty)
    } else if s[0] == '+' {
        if s.len() == 1 {
            Err(ParseIntError::InvalidDigit)
        } else {
            scan_digits(s.drop_first(), max)
        }
    } else {
        scan_digits(s, max)
    }
}

/// Reads `s` as an unsigned decimal that is at most `max`.
pub fn parse_decimal(s: &str, max: u64) -> (r: Result<u64, ParseIntError>)
    ensures
        r == decimal(s@, max),
{
    let n = s.unicode_len();
    if n == 0 {
        return Err(ParseIntError::Empty);
    }
    let mut i: usize = 0;
    if s.get_char(0) == '+' {
        if n == 1 {
            return Err(ParseIntError::InvalidDigit);
        }
        i = 1;
    }
    let ghost start = i as int;
    let ghost d = s@.subrange(start, n as int);
    assert(start == 1 ==> d == s@.drop_first());
    assert(start == 0 ==> d == s@);
    let mut v: u64 = 0;
    while i < n
        invariant
            start == 0 || start == 1,
            start <= i <= n,
            n == s@.len(),
            d == s@.subrange(start, n as int),
            decimal(s@, max) == scan_digits(d, max),
            scan_digits(d.take(i - start), max) == Ok::<u64, ParseIntError>(v),
        decreases n - i,
    {
        let c = s.get_char(i);
        let ghost pre = d.take(i - start);
        let ghost next = d.take(i + 1 - start);
        assert(next.drop_last() == pre);
        assert(next.last() == c);
        if c < '0' || c > '9' {
            proof { lemma_scan_error_sticks(d, max, (i + 1 - start) as nat); }
            assert(d.take(d.len() as int) == d);
            return Err(ParseIntError::InvalidDigit);
        }
        let dv = (c as u32 - '0' as u32) as u64;
        if dv > max || v > (max - dv) / 10 {
            assert(v * 10 + dv > max) by (nonlinear_arith)
                requires dv > max || v > (max - dv) / 10;
            proof { lemma_scan_error_sticks(d, max, (i + 1 - start) as nat); }
            assert(d.take(d.len() as int) == d);
            return Err(ParseIntError::PosOverflow);
        }
        assert(v * 10 + dv <= max) by (nonlinear_arith)
            requires v <= (max - dv) / 10, dv <= max;
        v = v * 10 + dv;
        i = i + 1;
    }
    assert(d.take(d.len() as int) == d);
    Ok(v)
}

/// Once a prefix of the digits fails, every longer prefix fails the same way.
proof fn lemma_scan_error_sticks(d: Seq<char>, max: u64, k: nat)
    requires
        k <= d.len(),
        scan_digits(d.take(k as int), max) is Err,
    ensures
        scan_digits(d, max) == scan_digits(d.take(k as int), max),
    decreases d.len() - k,
{
    if k < d.len() {
        let next = d.take(k + 1 as int);
        assert(next.drop_last() == d.take(k as int));
        lemma_scan_error_sticks(d, max, k + 1);
    } else {
        assert(d.take(k as int) == d);
    }
}

/// The pieces of `s` between single spaces, empty pieces included; there is
/// always at least one piece.
pub open spec fn split_spaces(s: Seq<char>) -> Seq<Seq<char>>
    decreases s.len(),
{
    if s.len() == 0 {
        seq![Seq::empty()]
    } else {
        let prev = split_spaces(s.drop_last());
        if s.last() == ' ' {
            prev.push(Seq::empty())
        } else {
            prev.update(prev.len() - 1, prev.last().push(s.last()))
        }
    }
}

/// The first piece of `s` and, where `s` holds a space, everything after the
/// first space.
pub open spec fn split_first_space(s: Seq<char>) -> (Seq<char>, Option<Seq<char>>) {
    let pieces = split_spaces(s);
    if pieces.len() > 1 {
        (pieces[0], Some(s.subrange(pieces[0].len() + 1 as int, s.len() as int)))
    } else {
        (s, None)
    }
}

/// There is always a first piece, no longer than `s`; it is shorter where a
/// space follows it, and it is all of `s` where there is no space.
pub proof fn lemma_split_shape(s: Seq<char>)
    ensures
        split_spaces(s).len() >= 1,
        split_spaces(s)[0].len() <= s.len(),
        split_spaces(s).len() > 1 ==> split_spaces(s)[0].len() < s.len(),
        split_spaces(s).len() == 1 ==> split_spaces(s)[0] == s,
        split_spaces(s).last().len() <= s.len(),
    decreases s.len(),
{
    if s.len() > 0 {
        lemma_split_shape(s.drop_last());
        let prev = split_spaces(s.drop_last());
        if s.last() != ' ' && prev.len() == 1 {
            assert(prev[0].push(s.last()) == s);
        }
    }
}

/// Splits `s` at every space.
pub fn split_spaces_of<'a>(s: &'a str) -> (r: Vec<&'a str>)
    ensures
        r@.len() == split_spaces(s@).len(),
        forall|k: int| 0 <= k < r@.len() ==> (#[trigger] r@[k])@ == split_spaces(s@)[k],
{
    let n = s.unicode_len();
    let mut pieces: Vec<&'a str> = Vec::new();
    let mut start: usize = 0;
    let mut i: usize = 0;
    while i < n
        invariant
            n == s@.len(),
            start <= i <= n,
            split_spaces(s@.take(i as int)).len() == pieces@.len() + 1,
            forall|k: int| 0 <= k < pieces@.len() ==> (#[trigger] pieces@[k])@ == split_spaces(s@.take(i as int))[k],
            split_spaces(s@.take(i as int)).last() == s@.subrange(start as int, i as int),
        decreases n - i,
    {
        let c = s.get_char(i);
        let ghost prev = split_spaces(s@.take(i as int));
        assert(s@.take(i + 1 as int).drop_last() == s@.take(i as int));
        if c == ' ' {
            let piece = s.substring_char(start, i);
            pieces.push(piece);
            start = i + 1;
            assert(s@.subrange(start as int, i + 1 as int) == Seq::<char>::empty());
        } else {
            assert(s@.subrange(start as int, i + 1 as int) == s@.subrange(start as int, i as int).push(c));
        }
        i = i + 1;
    }
    assert(s@.take(n as int) == s@);
    let last = s.substring_char(start, n);
    pieces.push(last);
    pieces
}

/// `s` and `t` hold the same characters.
pub fn same_text(s: &str, t: &str) -> (r: bool)
    ensures
        r == (s@ == t@),
{
    let n = s.unicode_len();
    if n != t.unicode_len() {
        return false;
    }
    let mut i: usize = 0;
    while i < n
        invariant
            n == s@.len() == t@.len(),
            i <= n,
            forall|k: int| 0 <= k < i ==> s@[k] == t@[k],
        decreases n - i,
    {
        if s.get_char(i) != t.get_char(i) {
            return false;
        }
        i = i + 1;
    }
    assert(s@ == t@);
    true
}

pub open spec fn ascii_lower_char(c: char) -> char {
    if 'A' <= c && c <= 'Z' {
        ((c as u32) + 32) as char
    } else {
        c
    }
}

/// `s` with its ASCII capitals made small; other characters stay.
pub open spec fn ascii_lower(s: Seq<char>) -> Seq<char> {
    s.map_values(|c: char| ascii_lower_char(c))
}

/// `s`, with ASCII letters compared without case, is `lower`.
pub fn equals_ignoring_ascii_case(s: &str, lower: &str) -> (r: bool)
    ensures
        r == (ascii_lower(s@) == lower@),
{
    let n = s.unicode_len();
    if n != lower.unicode_len() {
        return false;
    }
    let mut i: usize = 0;
    while i < n
        invariant
            n == s@.len() == lower@.len(),
            i <= n,
            forall|k: int| 0 <= k < i ==> ascii_lower_char(s@[k]) == lower@[k],
        decreases n - i,
    {
        let c = s.get_char(i);
        let l = lower.get_char(i);
        let same = if 'A' <= c && c <= 'Z' { (c as u32) + 32 == l as u32 } else { c == l };
        if !same {
            assert(ascii_lower(s@)[i as int] != lower@[i as int]);
            return false;
        }
        i = i + 1;
    }
    assert(ascii_lower(s@) == lower@);
    true
}

/// `s` without one `"` at its start and one at its end, each where present.
pub open spec fn unquote(s: Seq<char>) -> Seq<char> {
    let a = if s.len() > 0 && s[0] == '"' { s.drop_first() } else { s };
    if a.len() > 0 && a.last() == '"' { a.drop_last() } else { a }
}

/// Strips one layer of surrounding quotes.
pub fn unquoted<'a>(s: &'a str) -> (r: &'a str)
    ensures
        r@ == unquote(s@),
{
    let n = s.unicode_len();
    let mut from: usize = 0;
    if n > 0 && s.get_char(0) == '"' {
        from = 1;
    }
    let mut to: usize = n;
    if to > from && s.get_char(n - 1) == '"' {
        to = n - 1;
    }
    let r = s.substring_char(from, to);
    assert(r@ == unquote(s@));
    r
}

/// The number of `"` that `s` starts with.
pub open spec fn leading_quotes(s: Seq<char>) -> nat
    decreases s.len(),
{
    if s.len() > 0 && s[0] == '"' { 1 + leading_quotes(s.drop_first()) } else { 0 }
}

/// The number of `"` that `s` ends with.
pub open spec fn trailing_quotes(s: Seq<char>) -> nat
    decreases s.len(),
{
    if s.len() > 0 && s.last() == '"' { 1 + trailing_quotes(s.drop_last()) } else { 0 }
}

/// `s` without all the `"` at its start and at its end.
pub open spec fn trim_quotes(s: Seq<char>) -> Seq<char> {
    let a = s.skip(leading_quotes(s) as int);
    a.take(a.len() - trailing_quotes(a))
}

proof fn lemma_leading_quotes(s: Seq<char>, i: int)
    requires
        0 <= i <= s.len(),
        forall|k: int| 0 <= k < i ==> s[k] == '"',
        i == s.len() || s[i] != '"',
    ensures
        leading_quotes(s) == i,
    decreases i,
{
    if i > 0 {
        lemma_leading_quotes(s.drop_first(), i - 1);
    }
}

proof fn lemma_trailing_quotes(s: Seq<char>, i: int)
    requires
        0 <= i <= s.len(),
        forall|k: int| s.len() - i <= k < s.len() ==> s[k] == '"',
        i == s.len() || s[s.len() - 1 - i] != '"',
    ensures
        trailing_quotes(s) == i,
    decreases i,
{
    if i > 0 {
        lemma_trailing_quotes(s.drop_last(), i - 1);
    }
}

/// Strips every `"` from both ends.
pub fn trimmed_quotes<'a>(s: &'a str) -> (r: &'a str)
    ensures
        r@ == trim_quotes(s@),
{
    let n = s.unicode_len();
    let mut from: usize = 0;
    while from < n && s.get_char(from) == '"'
        invariant
            n == s@.len(),
            from <= n,
            forall|k: int| 0 <= k < from ==> s@[k] == '"',
        decreases n - from,
    {
        from = from + 1;
    }
    proof { lemma_leading_quotes(s@, from as int); }
    let a = s.substring_char(from, n);
    let mut to: usize = n - from;
    while to > 0 && a.get_char(to - 1) == '"'
        invariant
            a@.len() == n - from,
            to <= a@.len(),
            forall|k: int| to <= k < a@.len() ==> a@[k] == '"',
        decreases to,
    {
        to = to - 1;
    }
    proof { lemma_trailing_quotes(a@, a@.len() - to); }
    a.substring_char(0, to)
}

} // verus!
