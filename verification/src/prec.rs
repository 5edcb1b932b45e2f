use vstd::prelude::*;
use vstd::string::StrSliceExecFns;

verus! {

/// Selects which numeric backend instantiates the iteration engine:
/// fixed single width, fixed double width, or an explicit bit width.
#[derive(Clone, Copy, PartialEq, Eq, Structural, Debug)]
pub enum Precision {
    Single,
    Double,
    Multi(u32),
}

/// Why a precision argument was rejected, mirroring the kinds an integer
/// parse distinguishes.
#[derive(Clone, Copy, PartialEq, Eq, Structural, Debug)]
pub enum ParsePrecError {
    Empty,
    InvalidDigit,
    Overflow,
}

/// Case-insensitive match of a character against a lower-case letter.
pub open spec fn eqi(c: char, l: char) -> bool {
    c == l || c as u32 + 32 == l as u32
}

/// The word selecting the single-width backend, in either case.
pub open spec fn is_single_word(s: Seq<char>) -> bool {
    (s.len() == 1 && eqi(s[0], 's')) || (s.len() == 6 && eqi(s[0], 's') && eqi(s[1], 'i') && eqi(
        s[2],
        'n',
    ) && eqi(s[3], 'g') && eqi(s[4], 'l') && eqi(s[5], 'e'))
}

/// The word selecting the double-width backend, in either case.
pub open spec fn is_double_word(s: Seq<char>) -> bool {
    (s.len() == 1 && eqi(s[0], 'd')) || (s.len() == 6 && eqi(s[0], 'd') && eqi(s[1], 'o') && eqi(
        s[2],
        'u',
    ) && eqi(s[3], 'b') && eqi(s[4], 'l') && eqi(s[5], 'e'))
}

/// A decimal digit.
pub open spec fn is_digit(c: char) -> bool {
    48 <= c as u32 <= 57
}

/// The value of a decimal digit.
pub open spec fn digit_val(c: char) -> int {
    c as u32 - 48
}

/// A left-to-right scan of a digit string: the first non-digit rejects the
/// input, the first accumulation past the unsigned 32-bit range overflows,
/// and a completed scan yields the accumulated value.
pub open spec fn scan_u32(s: Seq<char>, i: int, acc: int) -> Result<int, ParsePrecError>
    decreases s.len() - i,
{
    if i >= s.len() {
        Ok(acc)
    } else if !is_digit(s[i]) {
        Err(ParsePrecError::InvalidDigit)
    } else if acc * 10 + digit_val(s[i]) > u32::MAX as int {
        Err(ParsePrecError::Overflow)
    } else {
        scan_u32(s, i + 1, acc * 10 + digit_val(s[i]))
    }
}

/// What a precision argument means: the backend words in either case, or a
/// bit count written as an unsigned decimal with an optional leading plus.
pub open spec fn parse_prec_spec(s: Seq<char>) -> Result<Precision, ParsePrecError> {
    if is_single_word(s) {
        Ok(Precision::Single)
    } else if is_double_word(s) {
        Ok(Precision::Double)
    } else if s.len() == 0 {
        Err(ParsePrecError::Empty)
    } else {
        let body = if s[0] == '+' {
            s.subrange(1, s.len() as int)
        } else {
            s
        };
        if body.len() == 0 {
            Err(ParsePrecError::InvalidDigit)
        } else {
            match scan_u32(body, 0, 0) {
                Ok(v) => Ok(Precision::Multi(v as u32)),
                Err(e) => Err(e),
            }
        }
    }
}

fn eqi_x(c: char, l: char) -> (r: bool)
    ensures
        r == eqi(c, l),
{
    c == l || (c as u32) + 32 == (l as u32)
}

/// Parses a precision argument: `s`/`single` and `d`/`double` in either
/// case select the fixed-width backends, anything else must be a bit
/// count written as an unsigned decimal.  The result is exactly what the
/// grammar gives, error kinds included.
pub fn parse_prec(val: &str) -> (r: Result<Precision, ParsePrecError>)
    ensures
        r == parse_prec_spec(val@),
{
    let len = val.unicode_len();
    if len == 1 && eqi_x(val.get_char(0), 's') {
        return Ok(Precision::Single);
    }
    if len == 6 && eqi_x(val.get_char(0), 's') && eqi_x(val.get_char(1), 'i') && eqi_x(
        val.get_char(2),
        'n',
    ) && eqi_x(val.get_char(3), 'g') && eqi_x(val.get_char(4), 'l') && eqi_x(val.get_char(5), 'e') {
        return Ok(Precision::Single);
    }
    if len == 1 && eqi_x(val.get_char(0), 'd') {
        return Ok(Precision::Double);
    }
    if len == 6 && eqi_x(val.get_char(0), 'd') && eqi_x(val.get_char(1), 'o') && eqi_x(
        val.get_char(2),
        'u',
    ) && eqi_x(val.get_char(3), 'b') && eqi_x(val.get_char(4), 'l') && eqi_x(val.get_char(5), 'e') {
        return Ok(Precision::Double);
    }
    if len == 0 {
        return Err(ParsePrecError::Empty);
    }
    let start: usize = if val.get_char(0) == '+' {
        1
    } else {
        0
    };
    if len - start == 0 {
        return Err(ParsePrecError::InvalidDigit);
    }
    let ghost body = if val@[0] == '+' {
        val@.subrange(1, val@.len() as int)
    } else {
        val@
    };
    let mut i: usize = start;
    let mut acc: u32 = 0;
    while i < len
        invariant
            start <= i <= len,
            len == val@.len(),
            start <= 1,
            val@.len() > 0,
            !is_single_word(val@),
            !is_double_word(val@),
            start == 1 <==> val@[0] == '+',
            body == (if val@[0] == '+' {
                val@.subrange(1, val@.len() as int)
            } else {
                val@
            }),
            body.len() == len - start,
            forall|k: int| 0 <= k < body.len() ==> body[k] == val@[k + start],
            scan_u32(body, 0, 0) == scan_u32(body, i - start, acc as int),
        decreases len - i,
    {
        let c = val.get_char(i);
        let cv = c as u32;
        if cv < 48 || cv > 57 {
            assert(scan_u32(body, i - start, acc as int) == Err::<int, ParsePrecError>(
                ParsePrecError::InvalidDigit,
            ));
            return Err(ParsePrecError::InvalidDigit);
        }
        let d = cv - 48;
        let t: u64 = acc as u64 * 10 + d as u64;
        if t > u32::MAX as u64 {
            assert(scan_u32(body, i - start, acc as int) == Err::<int, ParsePrecError>(
                ParsePrecError::Overflow,
            ));
            return Err(ParsePrecError::Overflow);
        }
        acc = t as u32;
        i = i + 1;
    }
    assert(scan_u32(body, i - start, acc as int) == Ok::<int, ParsePrecError>(acc as int));
    Ok(Precision::Multi(acc))
}

} // verus!
