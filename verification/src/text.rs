//! Decimal numbers and truth values in text: the parsing rules that the
//! configuration and mapping files go by, and the decimal form of numbers.

use vstd::prelude::*;

verus! {

/// Why a piece of text is not an unsigned number.
#[derive(Clone, Copy, Debug, PartialEq, Eq, Structural)]
pub enum IntErrorKind {
    /// The text is empty.
    Empty,
    /// The text holds something other than a decimal digit (after an optional
    /// leading `+`), or is a lone sign.
    InvalidDigit,
    /// The number is larger than the target type holds.
    PosOverflow,
}

impl IntErrorKind {
    /// The message that describes the error.
    pub fn message(&self) -> (m: &'static str)
        ensures
            m@ == int_error_message(*self),
    {
        match self {
            IntErrorKind::Empty => "cannot parse integer from empty string",
            IntErrorKind::InvalidDigit => "invalid digit found in string",
            IntErrorKind::PosOverflow => "number too large to fit in target type",
        }
    }
}

/// The message of each kind of number error.
pub open spec fn int_error_message(kind: IntErrorKind) -> Seq<char> {
    match kind {
        IntErrorKind::Empty => "cannot parse integer from empty string"@,
        IntErrorKind::InvalidDigit => "invalid digit found in string"@,
        IntErrorKind::PosOverflow => "number too large to fit in target type"@,
    }
}

/// The message for text that is neither `true` nor `false`.
pub fn bool_error_message() -> (m: &'static str)
    ensures
        m@ == "provided string was not `true` or `false`"@,
{
    "provided string was not `true` or `false`"
}

pub open spec fn is_digit(c: char) -> bool {
    '0' <= c && c <= '9'
}

pub open spec fn digit_value(c: char) -> int {
    c as int - '0' as int
}

pub open spec fn digit_char(d: int) -> char {
    ('0' as int + d) as char
}

/// Reads the decimal digits `d` from the left into a number no larger than
/// `max`: the first character that is not a digit, or the first digit that
/// takes the number over `max`, decides the error.
pub open spec fn scan_digits(d: Seq<char>, max: int) -> Result<int, IntErrorKind>
    decreases d.len(),
{
    if d.len() == 0 {
        Ok(0)
    } else {
        match scan_digits(d.drop_last(), max) {
            Err(e) => Err(e),
            Ok(v) => if !is_digit(d.last()) {
                Err(IntErrorKind::InvalidDigit)
            } else if v * 10 + digit_value(d.last()) > max {
                Err(IntErrorKind::PosOverflow)
            } else {
                Ok(v * 10 + digit_value(d.last()))
            },
        }
    }
}

/// An unsigned number no larger than `max` in decimal text: an optional `+`
/// followed by at least one decimal digit.
pub open spec fn parse_unsigned_spec(s: Seq<char>, max: int) -> Result<int, IntErrorKind> {
    if s.len() == 0 {
        Err(IntErrorKind::Empty)
    } else if s.len() == 1 && (s[0] == '+' || s[0] == '-') {
        Err(IntErrorKind::InvalidDigit)
    } else if s[0] == '+' {
        scan_digits(s.drop_first(), max)
    } else {
        scan_digits(s, max)
    }
}

/// `true` and `false` are the only truth values.
pub open spec fn parse_bool_spec(s: Seq<char>) -> Option<bool> {
    if s == "true"@ {
        Some(true)
    } else if s == "false"@ {
        Some(false)
    } else {
        None
    }
}

/// The decimal digits of `n`, without leading zeros.
pub open spec fn decimal(n: nat) -> Seq<char>
    decreases n,
{
    if n < 10 {
        seq![digit_char(n as int)]
    } else {
        decimal(n / 10).push(digit_char(n as int % 10))
    }
}

/// A number read is between zero and the bound.
pub proof fn lemma_scan_bounds(d: Seq<char>, max: int)
    requires
        max >= 0,
    ensures
        scan_digits(d, max) matches Ok(v) ==> 0 <= v <= max,
    decreases d.len(),
{
    if d.len() > 0 {
        lemma_scan_bounds(d.drop_last(), max);
    }
}

/// An unsigned number read is between zero and the bound.
pub proof fn lemma_parse_unsigned_bounds(s: Seq<char>, max: int)
    requires
        max >= 0,
    ensures
        parse_unsigned_spec(s, max) matches Ok(v) ==> 0 <= v <= max,
{
    lemma_scan_bounds(s, max);
    if s.len() > 0 {
        lemma_scan_bounds(s.drop_first(), max);
    }
}

/// The characters of a text.
pub fn chars_of(s: &str) -> (v: Vec<char>)
    ensures
        v@ == s@,
{
    let mut v: Vec<char> = Vec::new();
    for c in it: s.chars()
        invariant
            it.seq() == s@,
            v@ == it.seq().take(it.index() as int),
    {
        v.push(c);
    }
    v
}

/// A failure in a prefix of the digits is the failure of all of them.
proof fn lemma_scan_err_extends(d: Seq<char>, k: int, max: int)
    requires
        0 <= k <= d.len(),
        scan_digits(d.take(k), max) is Err,
    ensures
        scan_digits(d, max) == scan_digits(d.take(k), max),
    decreases d.len() - k,
{
    if k < d.len() {
        assert(d.take(k + 1).drop_last() =~= d.take(k));
        lemma_scan_err_extends(d, k + 1, max);
    } else {
        assert(d.take(k) =~= d);
    }
}

/// Scans the digits `s[start..]` into a number no larger than `max`.
fn scan_digits_from(s: &Vec<char>, start: usize, max: u32) -> (r: Result<u32, IntErrorKind>)
    requires
        start <= s@.len(),
        max <= 65535,
    ensures
        match r {
            Ok(v) => scan_digits(s@.skip(start as int), max as int) == Ok::<int, IntErrorKind>(
                v as int,
            ),
            Err(e) => scan_digits(s@.skip(start as int), max as int) == Err::<int, IntErrorKind>(
                e,
            ),
        },
{
    let ghost d = s@.skip(start as int);
    let mut v: u32 = 0;
    let mut i: usize = start;
    assert(d.take(0) =~= Seq::<char>::empty());
    while i < s.len()
        invariant
            start <= i <= s@.len(),
            d == s@.skip(start as int),
            max <= 65535,
            v <= max,
            scan_digits(d.take(i - start), max as int) == Ok::<int, IntErrorKind>(v as int),
        decreases s@.len() - i,
    {
        let c = s[i];
        assert(d.take(i - start + 1).drop_last() =~= d.take(i - start));
        assert(d.take(i - start + 1).last() == c);
        if !('0' <= c && c <= '9') {
            proof {
                lemma_scan_err_extends(d, i - start + 1, max as int);
            }
            return Err(IntErrorKind::InvalidDigit);
        }
        let digit: u32 = (c as u32) - ('0' as u32);
        let next: u32 = v * 10 + digit;
        if next > max {
            proof {
                lemma_scan_err_extends(d, i - start + 1, max as int);
            }
            return Err(IntErrorKind::PosOverflow);
        }
        v = next;
        i = i + 1;
    }
    assert(d.take(i - start) =~= d);
    Ok(v)
}

/// Parses an unsigned number no larger than `max`.
pub fn parse_unsigned(s: &Vec<char>, max: u32) -> (r: Result<u32, IntErrorKind>)
    requires
        max <= 65535,
    ensures
        match r {
            Ok(v) => parse_unsigned_spec(s@, max as int) == Ok::<int, IntErrorKind>(v as int),
            Err(e) => parse_unsigned_spec(s@, max as int) == Err::<int, IntErrorKind>(e),
        },
{
    if s.len() == 0 {
        return Err(IntErrorKind::Empty);
    }
    if s.len() == 1 && (s[0] == '+' || s[0] == '-') {
        return Err(IntErrorKind::InvalidDigit);
    }
    if s[0] == '+' {
        assert(s@.skip(1) =~= s@.drop_first());
        scan_digits_from(s, 1, max)
    } else {
        assert(s@.skip(0) =~= s@);
        scan_digits_from(s, 0, max)
    }
}

/// Parses a `u16` as decimal text.
pub fn parse_u16(s: &str) -> (r: Result<u16, IntErrorKind>)
    ensures
        match r {
            Ok(v) => parse_unsigned_spec(s@, 65535) == Ok::<int, IntErrorKind>(v as int),
            Err(e) => parse_unsigned_spec(s@, 65535) == Err::<int, IntErrorKind>(e),
        },
{
    let cs = chars_of(s);
    match parse_unsigned(&cs, 65535) {
        Ok(v) => Ok(v as u16),
        Err(e) => Err(e),
    }
}

/// Parses a `u8` as decimal text.
pub fn parse_u8(s: &str) -> (r: Result<u8, IntErrorKind>)
    ensures
        match r {
            Ok(v) => parse_unsigned_spec(s@, 255) == Ok::<int, IntErrorKind>(v as int),
            Err(e) => parse_unsigned_spec(s@, 255) == Err::<int, IntErrorKind>(e),
        },
{
    let cs = chars_of(s);
    match parse_unsigned(&cs, 255) {
        Ok(v) => Ok(v as u8),
        Err(e) => Err(e),
    }
}

/// Whether the characters `s` are exactly those of `lit`.
pub fn chars_equal(s: &Vec<char>, lit: &str) -> (r: bool)
    ensures
        r == (s@ == lit@),
{
    let n = lit.unicode_len();
    if s.len() != n {
        return false;
    }
    let mut i: usize = 0;
    while i < n
        invariant
            n == lit@.len(),
            s@.len() == n,
            i <= n,
            forall|j: int| 0 <= j < i ==> s@[j] == lit@[j],
        decreases n - i,
    {
        if s[i] != lit.get_char(i) {
            return false;
        }
        i = i + 1;
    }
    assert(s@ =~= lit@);
    true
}

/// Parses a truth value: exactly `true` or `false`.
pub fn parse_bool(s: &str) -> (r: Option<bool>)
    ensures
        r == parse_bool_spec(s@),
{
    let cs = chars_of(s);
    if chars_equal(&cs, "true") {
        Some(true)
    } else if chars_equal(&cs, "false") {
        Some(false)
    } else {
        None
    }
}


/// The text of one decimal digit.
fn digit_text(d: u16) -> (t: &'static str)
    requires
        d < 10,
    ensures
        t@ == seq![digit_char(d as int)],
{
    proof {
        reveal_strlit("0");
        reveal_strlit("1");
        reveal_strlit("2");
        reveal_strlit("3");
        reveal_strlit("4");
        reveal_strlit("5");
        reveal_strlit("6");
        reveal_strlit("7");
        reveal_strlit("8");
        reveal_strlit("9");
    }
    if d == 0 {
        "0"
    } else if d == 1 {
        "1"
    } else if d == 2 {
        "2"
    } else if d == 3 {
        "3"
    } else if d == 4 {
        "4"
    } else if d == 5 {
        "5"
    } else if d == 6 {
        "6"
    } else if d == 7 {
        "7"
    } else if d == 8 {
        "8"
    } else {
        "9"
    }
}

/// Appends the decimal digits of `n` to `out`.
pub fn push_decimal(out: &mut String, n: u16)
    ensures
        final(out)@ == old(out)@ + decimal(n as nat),
    decreases n,
{
    if n >= 10 {
        push_decimal(out, n / 10);
    }
    out.append(digit_text(n % 10));
    proof {
        if n >= 10 {
            assert(decimal(n as nat) == decimal((n / 10) as nat).push(digit_char(n as int % 10)));
        }
    }
    assert(out@ =~= old(out)@ + decimal(n as nat));
}

} // verus!
