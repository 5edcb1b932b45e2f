use vstd::prelude::*;
use vstd::string::StrSliceExecFns;

verus! {

/// Which grammar a numeric literal argument matched: the primary
/// decimal/scientific form, or the hexadecimal floating-point form of
/// the fallback parser.
#[derive(Clone, Copy, PartialEq, Eq, Structural, Debug)]
pub enum LiteralKind {
    Decimal,
    HexFloat,
}

/// A literal argument that neither grammar accepts in full; partial
/// matches are rejected, never truncated.
#[derive(Clone, Copy, PartialEq, Eq, Structural, Debug)]
pub struct LiteralError;

/// A decimal digit.
pub open spec fn dec_digit(c: char) -> bool {
    48 <= c as u32 <= 57
}

/// A hexadecimal digit.
pub open spec fn hex_digit(c: char) -> bool {
    dec_digit(c) || (97 <= c as u32 <= 102) || (65 <= c as u32 <= 70)
}

/// The index after the run of decimal digits starting at `i`.
pub open spec fn digits_end(s: Seq<char>, i: int) -> int
    decreases s.len() - i,
{
    if 0 <= i < s.len() && dec_digit(s[i]) {
        digits_end(s, i + 1)
    } else {
        i
    }
}

/// The index after the run of hexadecimal digits starting at `i`.
pub open spec fn hex_digits_end(s: Seq<char>, i: int) -> int
    decreases s.len() - i,
{
    if 0 <= i < s.len() && hex_digit(s[i]) {
        hex_digits_end(s, i + 1)
    } else {
        i
    }
}

/// From `i`, an optional exponent part (`e`/`E`, optional sign, digits)
/// that consumes the rest of the string; or the end of the string.
pub open spec fn dec_exp_or_end(s: Seq<char>, i: int, mark: char, mark2: char) -> bool {
    if i == s.len() {
        true
    } else if 0 <= i < s.len() && (s[i] == mark || s[i] == mark2) {
        let j = if i + 1 < s.len() && (s[i + 1] == '+' || s[i + 1] == '-') {
            i + 2
        } else {
            i + 1
        };
        let k = digits_end(s, j);
        k > j && k == s.len()
    } else {
        false
    }
}

/// After an optional sign: a mantissa of digits with at most one point
/// and at least one digit, then an optional scientific exponent, ending
/// exactly at the end of the string.
pub open spec fn dec_mantissa_from(s: Seq<char>, i: int) -> bool {
    let j = digits_end(s, i);
    if j == i {
        // No integer part: the mantissa must be `.digits`.
        0 <= i < s.len() && s[i] == '.' && {
            let k = digits_end(s, i + 1);
            k > i + 1 && dec_exp_or_end(s, k, 'e', 'E')
        }
    } else if 0 <= j < s.len() && s[j] == '.' {
        let k = digits_end(s, j + 1);
        dec_exp_or_end(s, k, 'e', 'E')
    } else {
        dec_exp_or_end(s, j, 'e', 'E')
    }
}

/// After an optional sign: `0x`, hexadecimal mantissa digits with at
/// most one point and at least one digit, then an optional binary
/// exponent (`p`/`P`, optional sign, decimal digits), ending exactly at
/// the end of the string.
pub open spec fn hex_mantissa_from(s: Seq<char>, i: int) -> bool {
    0 <= i && i + 1 < s.len() && s[i] == '0' && (s[i + 1] == 'x' || s[i + 1] == 'X') && {
        let start = i + 2;
        let j = hex_digits_end(s, start);
        if j == start {
            start < s.len() && s[start] == '.' && {
                let k = hex_digits_end(s, start + 1);
                k > start + 1 && dec_exp_or_end(s, k, 'p', 'P')
            }
        } else if j < s.len() && s[j] == '.' {
            let k = hex_digits_end(s, j + 1);
            dec_exp_or_end(s, k, 'p', 'P')
        } else {
            dec_exp_or_end(s, j, 'p', 'P')
        }
    }
}

/// The index after an optional leading sign.
pub open spec fn after_sign(s: Seq<char>) -> int {
    if s.len() > 0 && (s[0] == '+' || s[0] == '-') {
        1
    } else {
        0
    }
}

/// The whole string is a decimal or scientific literal.
pub open spec fn is_dec_literal(s: Seq<char>) -> bool {
    dec_mantissa_from(s, after_sign(s))
}

/// The whole string is a hexadecimal floating-point literal.
pub open spec fn is_hex_literal(s: Seq<char>) -> bool {
    hex_mantissa_from(s, after_sign(s))
}

fn dec_digit_x(c: char) -> (r: bool)
    ensures
        r == dec_digit(c),
{
    let v = c as u32;
    48 <= v && v <= 57
}

fn hex_digit_x(c: char) -> (r: bool)
    ensures
        r == hex_digit(c),
{
    let v = c as u32;
    (48 <= v && v <= 57) || (97 <= v && v <= 102) || (65 <= v && v <= 70)
}

fn digits_end_x(val: &str, len: usize, from: usize) -> (r: usize)
    requires
        from <= len,
        len == val@.len(),
    ensures
        from <= r <= len,
        r as int == digits_end(val@, from as int),
{
    let mut i = from;
    while i < len && dec_digit_x(val.get_char(i))
        invariant
            from <= i <= len,
            len == val@.len(),
            digits_end(val@, from as int) == digits_end(val@, i as int),
        decreases len - i,
    {
        i = i + 1;
    }
    i
}

fn hex_digits_end_x(val: &str, len: usize, from: usize) -> (r: usize)
    requires
        from <= len,
        len == val@.len(),
    ensures
        from <= r <= len,
        r as int == hex_digits_end(val@, from as int),
{
    let mut i = from;
    while i < len && hex_digit_x(val.get_char(i))
        invariant
            from <= i <= len,
            len == val@.len(),
            hex_digits_end(val@, from as int) == hex_digits_end(val@, i as int),
        decreases len - i,
    {
        i = i + 1;
    }
    i
}

fn dec_exp_or_end_x(val: &str, len: usize, from: usize, mark: char, mark2: char) -> (r: bool)
    requires
        from <= len,
        len == val@.len(),
    ensures
        r == dec_exp_or_end(val@, from as int, mark, mark2),
{
    if from == len {
        return true;
    }
    let c = val.get_char(from);
    if c != mark && c != mark2 {
        return false;
    }
    let j = if from + 1 < len {
        let c1 = val.get_char(from + 1);
        if c1 == '+' || c1 == '-' {
            from + 2
        } else {
            from + 1
        }
    } else {
        from + 1
    };
    let k = digits_end_x(val, len, j);
    k > j && k == len
}

/// Decides whether a numeric literal argument is acceptable, and under
/// which grammar: the primary decimal/scientific form, or, failing
/// that, the hexadecimal floating-point form the fallback parser adds.
/// A literal is accepted only when one grammar consumes the entire
/// string; anything else is an error, and no iteration runs on it.
pub fn parse_float(val: &str) -> (r: Result<LiteralKind, LiteralError>)
    ensures
        r == Ok::<LiteralKind, LiteralError>(LiteralKind::Decimal) <==> is_dec_literal(val@),
        r == Ok::<LiteralKind, LiteralError>(LiteralKind::HexFloat) <==> (!is_dec_literal(val@)
            && is_hex_literal(val@)),
        r == Err::<LiteralKind, LiteralError>(LiteralError) <==> (!is_dec_literal(val@)
            && !is_hex_literal(val@)),
{
    let len = val.unicode_len();
    let start: usize = if len > 0 {
        let c0 = val.get_char(0);
        if c0 == '+' || c0 == '-' {
            1
        } else {
            0
        }
    } else {
        0
    };
    let dec_ok = {
        let j = digits_end_x(val, len, start);
        if j == start {
            if start < len && val.get_char(start) == '.' {
                let k = digits_end_x(val, len, start + 1);
                k > start + 1 && dec_exp_or_end_x(val, len, k, 'e', 'E')
            } else {
                false
            }
        } else if j < len && val.get_char(j) == '.' {
            let k = digits_end_x(val, len, j + 1);
            dec_exp_or_end_x(val, len, k, 'e', 'E')
        } else {
            dec_exp_or_end_x(val, len, j, 'e', 'E')
        }
    };
    if dec_ok {
        return Ok(LiteralKind::Decimal);
    }
    let hex_ok = {
        if start + 1 < len && val.get_char(start) == '0' && {
            let cx = val.get_char(start + 1);
            cx == 'x' || cx == 'X'
        } {
            let hstart = start + 2;
            let j = hex_digits_end_x(val, len, hstart);
            if j == hstart {
                if hstart < len && val.get_char(hstart) == '.' {
                    let k = hex_digits_end_x(val, len, hstart + 1);
                    k > hstart + 1 && dec_exp_or_end_x(val, len, k, 'p', 'P')
                } else {
                    false
                }
            } else if j < len && val.get_char(j) == '.' {
                let k = hex_digits_end_x(val, len, j + 1);
                dec_exp_or_end_x(val, len, k, 'p', 'P')
            } else {
                dec_exp_or_end_x(val, len, j, 'p', 'P')
            }
        } else {
            false
        }
    };
    if hex_ok {
        Ok(LiteralKind::HexFloat)
    } else {
        Err(LiteralError)
    }
}

} // verus!
