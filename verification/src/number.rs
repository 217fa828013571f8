//! Whole numbers as decimal text.

use vstd::prelude::*;
use vstd::string::*;

verus! {

/// The character of a decimal digit.
pub open spec fn digit_char(d: int) -> char
    recommends
        0 <= d < 10,
{
    ('0' as int + d) as char
}

/// Whether a character is a decimal digit.
pub open spec fn is_digit(c: char) -> bool {
    '0' <= c <= '9'
}

/// The value of a decimal digit.
pub open spec fn digit_value(c: char) -> int
    recommends
        is_digit(c),
{
    c as int - '0' as int
}

/// The decimal digits of a natural number, without leading zeros.
pub open spec fn digits(n: nat) -> Seq<char>
    decreases n,
{
    if n < 10 {
        seq![digit_char(n as int)]
    } else {
        digits(n / 10).push(digit_char((n % 10) as int))
    }
}

/// A whole number in decimal, with a minus sign where it is negative.
pub open spec fn decimal(n: int) -> Seq<char> {
    if n < 0 {
        seq!['-'] + digits((-n) as nat)
    } else {
        digits(n as nat)
    }
}

/// The text of one decimal digit.
fn digit_str(d: u64) -> (r: &'static str)
    requires
        d < 10,
    ensures
        r@ == seq![digit_char(d as int)],
{
    proof {
        reveal_strlit("0");
        reveal_strlit("1");
        reveal_strlit("2");
        reveal_strlit("3");
        reveal_strlit("4");
        reveal_strlit("5");
        reveal_strlit("6");
        reveal_strlit("7");
        reveal_strlit("8");
        reveal_strlit("9");
    }
    let r = if d == 0 {
        "0"
    } else if d == 1 {
        "1"
    } else if d == 2 {
        "2"
    } else if d == 3 {
        "3"
    } else if d == 4 {
        "4"
    } else if d == 5 {
        "5"
    } else if d == 6 {
        "6"
    } else if d == 7 {
        "7"
    } else if d == 8 {
        "8"
    } else {
        "9"
    };
    assert(r@ =~= seq![digit_char(d as int)]);
    r
}

/// Renders a natural number in decimal.
pub fn u64_to_string(n: u64) -> (r: String)
    ensures
        r@ == digits(n as nat),
    decreases n,
{
    if n < 10 {
        String::from_str(digit_str(n))
    } else {
        let mut r = u64_to_string(n / 10);
        r.append(digit_str(n % 10));
        assert(r@ =~= digits(n as nat));
        r
    }
}

/// Renders a whole number in decimal.
pub fn i32_to_string(n: i32) -> (r: String)
    ensures
        r@ == decimal(n as int),
{
    if n < 0 {
        proof {
            reveal_strlit("-");
        }
        let mut r = String::from_str("-");
        let m: u64 = (-(n as i64)) as u64;
        let d = u64_to_string(m);
        r.append(d.as_str());
        assert(r@ =~= decimal(n as int));
        r
    } else {
        u64_to_string(n as u64)
    }
}

/// Why a text is not a number that fits into 32 bits.
#[derive(Clone, Copy, Debug, PartialEq, Eq, Structural, Hash)]
pub enum ParseIntError {
    /// The text is empty.
    Empty,
    /// The text holds a character that is no digit, or nothing but a sign.
    InvalidDigit,
    /// The number is too large.
    PosOverflow,
    /// The number is too small.
    NegOverflow,
}

impl ParseIntError {
    /// The message of the error.
    pub open spec fn text(self) -> Seq<char> {
        match self {
            ParseIntError::Empty => "cannot parse integer from empty string"@,
            ParseIntError::InvalidDigit => "invalid digit found in string"@,
            ParseIntError::PosOverflow => "number too large to fit in target type"@,
            ParseIntError::NegOverflow => "number too small to fit in target type"@,
        }
    }

    /// The message of the error.
    pub fn to_string(&self) -> (r: String)
        ensures
            r@ == self.text(),
    {
        match self {
            ParseIntError::Empty => String::from_str("cannot parse integer from empty string"),
            ParseIntError::InvalidDigit => String::from_str("invalid digit found in string"),
            ParseIntError::PosOverflow => String::from_str(
                "number too large to fit in target type",
            ),
            ParseIntError::NegOverflow => String::from_str(
                "number too small to fit in target type",
            ),
        }
    }
}

/// The number that a run of digits stands for, read from the left: below
/// zero where `negative` holds. The first character that is no digit, or the
/// first digit with which the number leaves the range of 32 bits, ends the
/// reading with an error.
pub open spec fn parse_digits(s: Seq<char>, negative: bool) -> Result<int, ParseIntError>
    decreases s.len(),
{
    if s.len() == 0 {
        Ok(0)
    } else {
        match parse_digits(s.drop_last(), negative) {
            Err(e) => Err(e),
            Ok(n) => if !is_digit(s.last()) {
                Err(ParseIntError::InvalidDigit)
            } else if negative {
                if n * 10 - digit_value(s.last()) < i32::MIN {
                    Err(ParseIntError::NegOverflow)
                } else {
                    Ok(n * 10 - digit_value(s.last()))
                }
            } else {
                if n * 10 + digit_value(s.last()) > i32::MAX {
                    Err(ParseIntError::PosOverflow)
                } else {
                    Ok(n * 10 + digit_value(s.last()))
                }
            },
        }
    }
}

/// The number that a text stands for: an optional sign, `+` or `-`, and at
/// least one digit after it.
pub open spec fn parse_int(s: Seq<char>) -> Result<int, ParseIntError> {
    if s.len() == 0 {
        Err(ParseIntError::Empty)
    } else if s.len() == 1 && (s[0] == '+' || s[0] == '-') {
        Err(ParseIntError::InvalidDigit)
    } else if s[0] == '+' {
        parse_digits(s.skip(1), false)
    } else if s[0] == '-' {
        parse_digits(s.skip(1), true)
    } else {
        parse_digits(s, false)
    }
}

/// Reads a number of 32 bits from the characters `s[from..]`.
pub fn parse_i32(s: &Vec<char>, from: usize, to: usize) -> (r: Result<i32, ParseIntError>)
    requires
        from <= to <= s@.len(),
    ensures
        match r {
            Ok(n) => parse_int(s@.subrange(from as int, to as int)) == Ok::<int, ParseIntError>(
                n as int,
            ),
            Err(e) => parse_int(s@.subrange(from as int, to as int)) == Err::<int, ParseIntError>(e),
        },
{
    let ghost text = s@.subrange(from as int, to as int);
    if from == to {
        return Err(ParseIntError::Empty);
    }
    let first = s[from];
    assert(text[0] == first);
    if to - from == 1 && (first == '+' || first == '-') {
        return Err(ParseIntError::InvalidDigit);
    }
    let negative = first == '-';
    let start: usize = if first == '+' || first == '-' {
        from + 1
    } else {
        from
    };
    let ghost body = s@.subrange(start as int, to as int);
    assert(body =~= if first == '+' || first == '-' {
        text.skip(1)
    } else {
        text
    });
    let mut n: i32 = 0;
    let mut i: usize = start;
    assert(body.take(0) =~= Seq::empty());
    assert(parse_int(text) == parse_digits(body, negative));
    while i < to
        invariant
            start <= i <= to <= s@.len(),
            text == s@.subrange(from as int, to as int),
            body == s@.subrange(start as int, to as int),
            parse_int(text) == parse_digits(body, negative),
            parse_digits(body.take(i - start), negative) == Ok::<int, ParseIntError>(n as int),
            negative ==> n <= 0,
            !negative ==> n >= 0,
        decreases to - i,
    {
        let c = s[i];
        let ghost next = body.take(i - start + 1);
        assert(next.drop_last() =~= body.take(i - start));
        assert(next.last() == c);
        proof {
            lemma_parse_error_stays(body, i - start + 1, negative);
        }
        if !(c >= '0' && c <= '9') {
            return Err(ParseIntError::InvalidDigit);
        }
        let d: i64 = (c as u32 - '0' as u32) as i64;
        assert(d == digit_value(c));
        let v: i64 = if negative {
            n as i64 * 10 - d
        } else {
            n as i64 * 10 + d
        };
        if v < i32::MIN as i64 {
            return Err(ParseIntError::NegOverflow);
        }
        if v > i32::MAX as i64 {
            return Err(ParseIntError::PosOverflow);
        }
        n = v as i32;
        i += 1;
    }
    assert(body.take(to - start) =~= body);
    Ok(n)
}

/// An error found in the first `n` characters is the error of the whole run.
pub proof fn lemma_parse_error_stays(s: Seq<char>, n: int, negative: bool)
    requires
        0 <= n <= s.len(),
    ensures
        parse_digits(s.take(n), negative) matches Err(e) ==> parse_digits(s, negative) == Err::<
            int,
            ParseIntError,
        >(e),
    decreases s.len() - n,
{
    if n < s.len() {
        lemma_parse_error_stays(s, n + 1, negative);
        assert(s.take(n + 1).drop_last() =~= s.take(n));
    } else {
        assert(s.take(n) =~= s);
    }
}

} // verus!
