//! Decimal integers as text: what a sensor or actuator file holds.
//!
//! Reading follows the conventions of the standard library's integer parsing:
//! surrounding white space is dropped, a sign may lead, digits follow, and the
//! first character that cannot be taken decides the error.

use vstd::prelude::*;

verus! {

/// Why a text is not the decimal integer that was asked for.
#[derive(Clone, Copy, Debug, PartialEq, Eq, Structural)]
pub enum ParseError {
    /// Nothing is left once the white space is dropped.
    Empty,
    /// A character that is no digit, or a sign with nothing behind it.
    InvalidDigit,
    /// The number lies above the largest value of the type.
    PosOverflow,
    /// The number lies below the smallest value of the type.
    NegOverflow,
}

impl ParseError {
    /// The words for the error.
    pub open spec fn message_text(self) -> Seq<char> {
        match self {
            ParseError::Empty => "cannot parse integer from empty string"@,
            ParseError::InvalidDigit => "invalid digit found in string"@,
            ParseError::PosOverflow => "number too large to fit in target type"@,
            ParseError::NegOverflow => "number too small to fit in target type"@,
        }
    }

    /// The error in words, for a diagnostic.
    pub fn message(&self) -> (s: &'static str)
        ensures
            s@ == self.message_text(),
    {
        match self {
            ParseError::Empty => "cannot parse integer from empty string",
            ParseError::InvalidDigit => "invalid digit found in string",
            ParseError::PosOverflow => "number too large to fit in target type",
            ParseError::NegOverflow => "number too small to fit in target type",
        }
    }
}

/// The Unicode code points with the property `White_Space`.
pub open spec fn is_whitespace(c: char) -> bool {
    let u = c as u32;
    ||| 0x09 <= u <= 0x0D
    ||| u == 0x20
    ||| u == 0x85
    ||| u == 0xA0
    ||| u == 0x1680
    ||| 0x2000 <= u <= 0x200A
    ||| u == 0x2028
    ||| u == 0x2029
    ||| u == 0x202F
    ||| u == 0x205F
    ||| u == 0x3000
}

/// `s` without the white space at its start.
pub open spec fn trim_start(s: Seq<char>) -> Seq<char>
    decreases s.len(),
{
    if s.len() > 0 && is_whitespace(s.first()) {
        trim_start(s.drop_first())
    } else {
        s
    }
}

/// `s` without the white space at its end.
pub open spec fn trim_end(s: Seq<char>) -> Seq<char>
    decreases s.len(),
{
    if s.len() > 0 && is_whitespace(s.last()) {
        trim_end(s.drop_last())
    } else {
        s
    }
}

/// `s` without the white space at either end.
pub open spec fn trim(s: Seq<char>) -> Seq<char> {
    trim_end(trim_start(s))
}

/// The ten ASCII digits.
pub open spec fn is_digit(c: char) -> bool {
    0x30 <= c as u32 <= 0x39
}

/// The number that the digit `c` stands for.
pub open spec fn digit_value(c: char) -> nat {
    (c as u32 - 0x30) as nat
}

/// Every character of `s` is a digit.
pub open spec fn all_digits(s: Seq<char>) -> bool {
    forall|i: int| 0 <= i < s.len() ==> is_digit(#[trigger] s[i])
}

/// How many digits stand at the start of `s` before anything else.
pub open spec fn digit_run(s: Seq<char>) -> nat
    decreases s.len(),
{
    if all_digits(s) {
        s.len()
    } else {
        digit_run(s.drop_last())
    }
}

/// The number written by the digits `s`, the most significant first.
pub open spec fn decimal_value(s: Seq<char>) -> nat
    decreases s.len(),
{
    if s.len() == 0 {
        0
    } else {
        10 * decimal_value(s.drop_last()) + digit_value(s.last())
    }
}

/// What the trimmed text `t` reads as, for an integer type that holds `lo`
/// to `hi` and is `signed` or not.
///
/// A leading `+` is always taken, a leading `-` only by a signed type. The
/// digits that follow are read up to the first character that is no digit; if
/// their value already leaves the range, that is the error, else the stray
/// character is.
pub open spec fn parse_decimal(t: Seq<char>, signed: bool, lo: int, hi: int) -> Result<
    int,
    ParseError,
> {
    if t.len() == 0 {
        Err(ParseError::Empty)
    } else if t.len() == 1 && (t[0] == '+' || t[0] == '-') {
        Err(ParseError::InvalidDigit)
    } else {
        let negative = signed && t[0] == '-';
        let body = if t[0] == '+' || negative {
            t.drop_first()
        } else {
            t
        };
        let digits = body.take(digit_run(body) as int);
        let value = if negative {
            -(decimal_value(digits) as int)
        } else {
            decimal_value(digits) as int
        };
        if value > hi {
            Err(ParseError::PosOverflow)
        } else if value < lo {
            Err(ParseError::NegOverflow)
        } else if digits.len() < body.len() {
            Err(ParseError::InvalidDigit)
        } else {
            Ok(value)
        }
    }
}

/// What `text` reads as for an `i32`, white space around it dropped.
pub open spec fn read_i32(text: Seq<char>) -> Result<int, ParseError> {
    parse_decimal(trim(text), true, i32::MIN as int, i32::MAX as int)
}

/// What `text` reads as for a `u16`, white space around it dropped.
pub open spec fn read_u16(text: Seq<char>) -> Result<int, ParseError> {
    parse_decimal(trim(text), false, 0, u16::MAX as int)
}

/// The character that writes the digit `d`.
pub open spec fn digit_char(d: nat) -> char {
    if d == 0 {
        '0'
    } else if d == 1 {
        '1'
    } else if d == 2 {
        '2'
    } else if d == 3 {
        '3'
    } else if d == 4 {
        '4'
    } else if d == 5 {
        '5'
    } else if d == 6 {
        '6'
    } else if d == 7 {
        '7'
    } else if d == 8 {
        '8'
    } else {
        '9'
    }
}

/// The decimal digits of `n`, the most significant first, with no leading
/// zero but for `0` itself.
pub open spec fn decimal_digits(n: nat) -> Seq<char>
    decreases n,
{
    if n < 10 {
        seq![digit_char(n)]
    } else {
        decimal_digits(n / 10).push(digit_char(n % 10))
    }
}

/// The digits of `n` are digits, at least one, and write `n`.
pub proof fn lemma_decimal_digits_write(n: nat)
    ensures
        decimal_digits(n).len() >= 1,
        all_digits(decimal_digits(n)),
        decimal_value(decimal_digits(n)) == n,
    decreases n,
{
    if n < 10 {
        assert(decimal_value(decimal_digits(n).drop_last()) == 0);
    } else {
        lemma_decimal_digits_write(n / 10);
        assert(decimal_digits(n).drop_last() == decimal_digits(n / 10));
    }
}

/// What is written in decimal reads back as the same number, for any type
/// whose range holds it.
pub proof fn lemma_digits_read_back(n: nat, signed: bool, lo: int, hi: int)
    requires
        lo <= n <= hi,
    ensures
        parse_decimal(trim(decimal_digits(n)), signed, lo, hi) == Ok::<int, ParseError>(n as int),
{
    let s = decimal_digits(n);
    lemma_decimal_digits_write(n);
    assert(s.take(s.len() as int) == s);
}

/// The characters of `text`, in order.
fn chars_of(text: &str) -> (v: Vec<char>)
    ensures
        v@ == text@,
{
    let mut v: Vec<char> = Vec::new();
    for c in it: text.chars()
        invariant
            v@ == it.seq().take(it.index()),
            it.seq() == text@,
    {
        v.push(c);
    }
    v
}

fn whitespace(c: char) -> (b: bool)
    ensures
        b == is_whitespace(c),
{
    let u: u32 = c as u32;
    (0x09 <= u && u <= 0x0D) || u == 0x20 || u == 0x85 || u == 0xA0 || u == 0x1680 || (0x2000 <= u
        && u <= 0x200A) || u == 0x2028 || u == 0x2029 || u == 0x202F || u == 0x205F || u == 0x3000
}

/// The bounds of `trim(v@)` within `v`.
fn trim_bounds(v: &Vec<char>) -> (r: (usize, usize))
    ensures
        r.0 <= r.1 <= v.len(),
        v@.subrange(r.0 as int, r.1 as int) == trim(v@),
{
    let n = v.len();
    let mut i: usize = 0;
    assert(v@.subrange(0, n as int) == v@);
    while i < n && whitespace(v[i])
        invariant
            i <= n == v.len(),
            trim_start(v@) == trim_start(v@.subrange(i as int, n as int)),
        decreases n - i,
    {
        assert(v@.subrange(i as int, n as int).drop_first() == v@.subrange(i + 1, n as int));
        i += 1;
    }
    let mut j: usize = n;
    while j > i && whitespace(v[j - 1])
        invariant
            i <= j <= n == v.len(),
            trim_start(v@) == v@.subrange(i as int, n as int),
            trim(v@) == trim_end(v@.subrange(i as int, j as int)),
        decreases j,
    {
        assert(v@.subrange(i as int, j as int).drop_last() == v@.subrange(i as int, j - 1));
        j -= 1;
    }
    (i, j)
}

/// The digits at the start of `s` are exactly its first `k` characters.
proof fn lemma_digit_run_is(s: Seq<char>, k: int)
    requires
        0 <= k <= s.len(),
        forall|i: int| 0 <= i < k ==> is_digit(#[trigger] s[i]),
        k < s.len() ==> !is_digit(s[k]),
    ensures
        digit_run(s) == k,
    decreases s.len(),
{
    if !all_digits(s) {
        lemma_digit_run_is(s.drop_last(), k);
    }
}

/// The digits at the start of `s` include its first `k` characters.
proof fn lemma_digit_run_covers(s: Seq<char>, k: int)
    requires
        0 <= k <= s.len(),
        forall|i: int| 0 <= i < k ==> is_digit(#[trigger] s[i]),
    ensures
        k <= digit_run(s) <= s.len(),
    decreases s.len(),
{
    if !all_digits(s) {
        lemma_digit_run_covers(s.drop_last(), k);
    }
}

/// A longer run of digits writes no smaller number.
proof fn lemma_value_grows(s: Seq<char>, j: int, k: int)
    requires
        0 <= j <= k <= s.len(),
    ensures
        decimal_value(s.take(j)) <= decimal_value(s.take(k)),
    decreases k - j,
{
    if j < k {
        lemma_value_grows(s, j, k - 1);
        assert(s.take(k).drop_last() == s.take(k - 1));
    }
}

/// Reads `v[start..end]`, already trimmed, as `parse_decimal` says.
#[verifier::loop_isolation(false)]
fn parse_between(v: &Vec<char>, start: usize, end: usize, signed: bool, lo: i64, hi: i64) -> (r:
    Result<i64, ParseError>)
    requires
        start <= end <= v.len(),
        -0x1_0000_0000 <= lo <= 0 <= hi <= 0x1_0000_0000,
    ensures
        parse_decimal(v@.subrange(start as int, end as int), signed, lo as int, hi as int)
            == match r {
            Ok(x) => Ok::<int, ParseError>(x as int),
            Err(e) => Err(e),
        },
{
    let ghost t = v@.subrange(start as int, end as int);
    if start == end {
        return Err(ParseError::Empty);
    }
    let first = v[start];
    if end - start == 1 && (first == '+' || first == '-') {
        return Err(ParseError::InvalidDigit);
    }
    let negative = signed && first == '-';
    let from: usize = if first == '+' || negative {
        start + 1
    } else {
        start
    };
    let ghost body = v@.subrange(from as int, end as int);
    assert(from > start ==> body == t.drop_first());
    let mut acc: i64 = 0;
    let mut k: usize = from;
    while k < end
        invariant
            from <= k <= end <= v.len(),
            body == v@.subrange(from as int, end as int),
            forall|i: int| 0 <= i < k - from ==> is_digit(#[trigger] body[i]),
            acc == if negative {
                -(decimal_value(body.take(k - from)) as int)
            } else {
                decimal_value(body.take(k - from)) as int
            },
            lo <= acc <= hi,
            -0x1_0000_0000 <= lo <= 0 <= hi <= 0x1_0000_0000,
        decreases end - k,
    {
        let u: u32 = v[k] as u32;
        if u < 0x30 || u > 0x39 {
            proof {
                lemma_digit_run_is(body, k - from);
            }
            return Err(ParseError::InvalidDigit);
        }
        let d: i64 = (u - 0x30) as i64;
        let next: i64 = if negative {
            acc * 10 - d
        } else {
            acc * 10 + d
        };
        proof {
            assert(body.take(k - from + 1).drop_last() == body.take(k - from));
            if next > hi || next < lo {
                lemma_digit_run_covers(body, k - from + 1);
                lemma_value_grows(body, k - from + 1, digit_run(body) as int);
            }
        }
        if next > hi {
            return Err(ParseError::PosOverflow);
        }
        if next < lo {
            return Err(ParseError::NegOverflow);
        }
        acc = next;
        k += 1;
    }
    proof {
        lemma_digit_run_is(body, body.len() as int);
    }
    Ok(acc)
}

/// Reads a signed decimal integer, as `str::trim` and then `str::parse::<i32>`
/// would.
pub fn parse_i32(text: &str) -> (r: Result<i32, ParseError>)
    ensures
        read_i32(text@) == match r {
            Ok(x) => Ok::<int, ParseError>(x as int),
            Err(e) => Err(e),
        },
{
    let v = chars_of(text);
    let (start, end) = trim_bounds(&v);
    match parse_between(&v, start, end, true, i32::MIN as i64, i32::MAX as i64) {
        Ok(x) => Ok(x as i32),
        Err(e) => Err(e),
    }
}

/// Reads an unsigned decimal integer, as `str::trim` and then
/// `str::parse::<u16>` would.
pub fn parse_u16(text: &str) -> (r: Result<u16, ParseError>)
    ensures
        read_u16(text@) == match r {
            Ok(x) => Ok::<int, ParseError>(x as int),
            Err(e) => Err(e),
        },
{
    let v = chars_of(text);
    let (start, end) = trim_bounds(&v);
    match parse_between(&v, start, end, false, 0, u16::MAX as i64) {
        Ok(x) => Ok(x as u16),
        Err(e) => Err(e),
    }
}

fn digit_text(d: u16) -> (s: &'static str)
    requires
        d < 10,
    ensures
        s@ == seq![digit_char(d as nat)],
{
    proof {
        reveal_strlit("0");
        reveal_strlit("1");
        reveal_strlit("2");
        reveal_strlit("3");
        reveal_strlit("4");
        reveal_strlit("5");
        reveal_strlit("6");
        reveal_strlit("7");
        reveal_strlit("8");
        reveal_strlit("9");
    }
    if d == 0 {
        "0"
    } else if d == 1 {
        "1"
    } else if d == 2 {
        "2"
    } else if d == 3 {
        "3"
    } else if d == 4 {
        "4"
    } else if d == 5 {
        "5"
    } else if d == 6 {
        "6"
    } else if d == 7 {
        "7"
    } else if d == 8 {
        "8"
    } else {
        "9"
    }
}

/// Writes `n` in decimal.
pub fn format_u16(n: u16) -> (s: String)
    ensures
        s@ == decimal_digits(n as nat),
    decreases n,
{
    if n < 10 {
        String::from_str(digit_text(n))
    } else {
        let head = format_u16(n / 10);
        head.concat(digit_text(n % 10))
    }
}

} // verus!
