//! Reading a cell number from a line a player typed.
use vstd::prelude::*;

verus! {

/// Why a line is not a number.
#[derive(Clone, Copy, PartialEq, Eq, Structural, Debug)]
pub enum ParseFailure {
    /// Nothing is left once surrounding whitespace is removed.
    Empty,
    /// A character that is not a decimal digit (a lone `+` included).
    InvalidDigit,
    /// The digits make a number larger than `usize::MAX`.
    TooLarge,
}

/// Why a line names no cell.
#[derive(Clone, Copy, PartialEq, Eq, Structural, Debug)]
pub enum InputError {
    /// The line is not a non-negative integer.
    NotANumber(ParseFailure),
    /// The line is a number, but not one of 0 to 8.
    OutOfRange,
}

/// Whether `c` has the Unicode `White_Space` property.
pub open spec fn is_whitespace(c: char) -> bool {
    let u = c as u32;
    (0x9 <= u && u <= 0xd) || u == 0x20 || u == 0x85 || u == 0xa0 || u == 0x1680 || (0x2000
        <= u && u <= 0x200a) || u == 0x2028 || u == 0x2029 || u == 0x202f || u == 0x205f || u
        == 0x3000
}

/// `s` without its leading whitespace.
pub open spec fn trim_start(s: Seq<char>) -> Seq<char>
    decreases s.len(),
{
    if s.len() > 0 && is_whitespace(s[0]) {
        trim_start(s.drop_first())
    } else {
        s
    }
}

/// `s` without its trailing whitespace.
pub open spec fn trim_end(s: Seq<char>) -> Seq<char>
    decreases s.len(),
{
    if s.len() > 0 && is_whitespace(s.last()) {
        trim_end(s.drop_last())
    } else {
        s
    }
}

/// `s` without whitespace at either end.
pub open spec fn trimmed(s: Seq<char>) -> Seq<char> {
    trim_end(trim_start(s))
}

/// Whether `c` is one of `0` to `9`.
pub open spec fn is_digit(c: char) -> bool {
    48 <= c as u32 && c as u32 <= 57
}

/// The value of a decimal digit.
pub open spec fn digit_value(c: char) -> nat {
    (c as u32 - 48) as nat
}

/// Reads `d` as decimal digits from the left; the first character that is
/// no digit, or at which the value passes `usize::MAX`, decides the failure.
pub open spec fn scan_digits(d: Seq<char>) -> Result<nat, ParseFailure>
    decreases d.len(),
{
    if d.len() == 0 {
        Ok(0)
    } else {
        match scan_digits(d.drop_last()) {
            Err(f) => Err(f),
            Ok(v) => if !is_digit(d.last()) {
                Err(ParseFailure::InvalidDigit)
            } else if v * 10 + digit_value(d.last()) > usize::MAX {
                Err(ParseFailure::TooLarge)
            } else {
                Ok(v * 10 + digit_value(d.last()))
            },
        }
    }
}

/// Reads `s` as a non-negative decimal integer, with an optional leading `+`.
pub open spec fn parse_number(s: Seq<char>) -> Result<nat, ParseFailure> {
    if s.len() == 0 {
        Err(ParseFailure::Empty)
    } else if s[0] == '+' {
        if s.len() == 1 {
            Err(ParseFailure::InvalidDigit)
        } else {
            scan_digits(s.drop_first())
        }
    } else {
        scan_digits(s)
    }
}

/// The cell that a typed line names, or why it names none.
pub open spec fn read_move_result(raw: Seq<char>) -> Result<usize, InputError> {
    match parse_number(trimmed(raw)) {
        Err(f) => Err(InputError::NotANumber(f)),
        Ok(v) => if v < 9 {
            Ok(v as usize)
        } else {
            Err(InputError::OutOfRange)
        },
    }
}

/// Whether `c` is whitespace.
fn whitespace(c: char) -> (r: bool)
    ensures
        r == is_whitespace(c),
{
    let u = c as u32;
    (0x9 <= u && u <= 0xd) || u == 0x20 || u == 0x85 || u == 0xa0 || u == 0x1680 || (0x2000
        <= u && u <= 0x200a) || u == 0x2028 || u == 0x2029 || u == 0x202f || u == 0x205f || u
        == 0x3000
}

proof fn lemma_scan_failure_stays(d: Seq<char>, n: int)
    requires
        0 <= n <= d.len(),
        scan_digits(d.subrange(0, n)) is Err,
    ensures
        scan_digits(d) == scan_digits(d.subrange(0, n)),
    decreases d.len(),
{
    if n == d.len() {
        assert(d.subrange(0, n) =~= d);
    } else {
        assert(d.drop_last().subrange(0, n) =~= d.subrange(0, n));
        lemma_scan_failure_stays(d.drop_last(), n);
    }
}

impl ParseFailure {
    /// The text reported to a player for this failure.
    pub fn message(&self) -> (r: &'static str)
        ensures
            r@ == failure_text(*self),
    {
        match self {
            ParseFailure::Empty => "cannot parse integer from empty string",
            ParseFailure::InvalidDigit => "invalid digit found in string",
            ParseFailure::TooLarge => "number too large to fit in target type",
        }
    }
}

/// The text reported to a player for a parse failure.
pub open spec fn failure_text(f: ParseFailure) -> Seq<char> {
    match f {
        ParseFailure::Empty => "cannot parse integer from empty string"@,
        ParseFailure::InvalidDigit => "invalid digit found in string"@,
        ParseFailure::TooLarge => "number too large to fit in target type"@,
    }
}

/// Reads the cell a player typed: surrounding whitespace is ignored, the rest
/// must be a non-negative decimal integer, and it must be one of 0 to 8.
pub fn read_move(raw: &str) -> (r: Result<usize, InputError>)
    ensures
        r == read_move_result(raw@),
{
    let n = raw.unicode_len();
    let mut start: usize = 0;
    assert(raw@.subrange(0, n as int) =~= raw@);
    while start < n && whitespace(raw.get_char(start))
        invariant
            start <= n == raw@.len(),
            trim_start(raw@) == trim_start(raw@.subrange(start as int, n as int)),
        decreases n - start,
    {
        assert(raw@.subrange(start as int, n as int).drop_first() =~= raw@.subrange(
            start + 1,
            n as int,
        ));
        start += 1;
    }
    assert(trim_start(raw@) == raw@.subrange(start as int, n as int)) by {
        if start < n {
            assert(raw@.subrange(start as int, n as int)[0] == raw@[start as int]);
        }
    }
    let mut end: usize = n;
    while end > start && whitespace(raw.get_char(end - 1))
        invariant
            start <= end <= n == raw@.len(),
            trimmed(raw@) == trim_end(raw@.subrange(start as int, end as int)),
        decreases end,
    {
        assert(raw@.subrange(start as int, end as int).drop_last() =~= raw@.subrange(
            start as int,
            end - 1,
        ));
        end -= 1;
    }
    let ghost t = raw@.subrange(start as int, end as int);
    assert(trimmed(raw@) == t) by {
        if start < end {
            assert(t.last() == raw@[end - 1]);
        }
    }
    if start == end {
        return Err(InputError::NotANumber(ParseFailure::Empty));
    }
    let mut p = start;
    if raw.get_char(start) == '+' {
        if end - start == 1 {
            return Err(InputError::NotANumber(ParseFailure::InvalidDigit));
        }
        p = start + 1;
        assert(t.drop_first() =~= raw@.subrange(p as int, end as int));
    } else {
        assert(t =~= raw@.subrange(p as int, end as int));
    }
    let ghost d = raw@.subrange(p as int, end as int);
    assert(parse_number(t) == scan_digits(d));
    let mut v: usize = 0;
    let mut k: usize = p;
    assert(d.subrange(0, 0) =~= Seq::<char>::empty());
    while k < end
        invariant
            p <= k <= end <= n == raw@.len(),
            d == raw@.subrange(p as int, end as int),
            parse_number(trimmed(raw@)) == scan_digits(d),
            scan_digits(d.subrange(0, k - p)) == Ok::<nat, ParseFailure>(v as nat),
        decreases end - k,
    {
        let c = raw.get_char(k);
        let ghost pre = d.subrange(0, k - p + 1);
        assert(pre.drop_last() =~= d.subrange(0, k - p));
        assert(pre.last() == c);
        let u = c as u32;
        if !(48 <= u && u <= 57) {
            assert(scan_digits(pre) == Err::<nat, ParseFailure>(ParseFailure::InvalidDigit));
            proof {
                lemma_scan_failure_stays(d, k - p + 1);
            }
            return Err(InputError::NotANumber(ParseFailure::InvalidDigit));
        }
        let next = match v.checked_mul(10) {
            Some(w) => w.checked_add((u - 48) as usize),
            None => None,
        };
        match next {
            Some(w) => {
                v = w;
            },
            None => {
                assert(scan_digits(pre) == Err::<nat, ParseFailure>(ParseFailure::TooLarge));
                proof {
                    lemma_scan_failure_stays(d, k - p + 1);
                }
                return Err(InputError::NotANumber(ParseFailure::TooLarge));
            },
        }
        k += 1;
    }
    assert(d.subrange(0, end - p) =~= d);
    if v < 9 {
        Ok(v)
    } else {
        Err(InputError::OutOfRange)
    }
}

} // verus!
