//! Exact parsing of decimal literals into thousandths.
//!
//! Extracted field values are decimal literals in kilowatt(-hour) units; the
//! accountant needs `floor(value * 1000)`, the value in whole watt units.
//! The parse is exact integer arithmetic: an optional sign, integer digits,
//! and fraction digits are read directly, so no rounding beyond the single
//! final floor ever happens. Results that do not fit a signed 64-bit word
//! are pressed to the nearest bound.

use vstd::prelude::*;

use crate::clamp_i64;
use crate::pow10;
use crate::PassError;

verus! {

pub open spec fn is_digit(c: char) -> bool {
    48 <= (c as int) && (c as int) <= 57
}

pub open spec fn digit_val(c: char) -> int {
    (c as int) - 48
}

pub open spec fn all_digits(s: Seq<char>) -> bool {
    forall|i: int| 0 <= i < s.len() ==> is_digit(#[trigger] s[i])
}

/// The base-ten value of a digit string, most significant digit first.
pub open spec fn digits_val(s: Seq<char>) -> int
    decreases s.len(),
{
    if s.len() == 0 {
        0
    } else {
        digits_val(s.drop_last()) * 10 + digit_val(s.last())
    }
}

/// Index of the first decimal point at or after `from`, if any.
pub open spec fn find_dot(s: Seq<char>, from: int) -> Option<int>
    decreases s.len() - from,
{
    if from >= s.len() {
        None
    } else if s[from] == '.' {
        Some(from)
    } else {
        find_dot(s, from + 1)
    }
}

/// The shape of a decimal literal: an optional sign, then digits split by at
/// most one decimal point, with at least one digit in all.
pub struct DecimalParts {
    pub negative: bool,
    pub int_digits: Seq<char>,
    pub frac_digits: Seq<char>,
}

/// Splits a character sequence as a decimal literal, or nothing when the
/// sequence is not one.
pub open spec fn decimal_parts(s: Seq<char>) -> Option<DecimalParts> {
    let negative = s.len() > 0 && s[0] == '-';
    let body = if s.len() > 0 && (s[0] == '-' || s[0] == '+') {
        s.skip(1)
    } else {
        s
    };
    let parts = match find_dot(body, 0) {
        None => DecimalParts { negative, int_digits: body, frac_digits: Seq::empty() },
        Some(d) => DecimalParts {
            negative,
            int_digits: body.take(d),
            frac_digits: body.skip(d + 1),
        },
    };
    if all_digits(parts.int_digits) && all_digits(parts.frac_digits) && parts.int_digits.len()
        + parts.frac_digits.len() >= 1 {
        Some(parts)
    } else {
        None
    }
}

/// The value of the first three fraction digits read as thousandths; missing
/// digits count as zeros.
pub open spec fn frac_milli(f: Seq<char>) -> int {
    if f.len() >= 3 {
        digits_val(f.take(3))
    } else {
        digits_val(f) * pow10((3 - f.len()) as nat)
    }
}

/// Whether anything beyond the first three fraction digits is non-zero, so
/// that flooring a negative value must step one further down.
pub open spec fn frac_remainder_nonzero(f: Seq<char>) -> bool {
    exists|i: int| 3 <= i < f.len() && f[i] != '0'
}

/// `floor(v * 1000)` for the decimal literal `s` of value `v`, or nothing
/// when `s` is not a decimal literal.
pub open spec fn milli_spec(s: Seq<char>) -> Option<int> {
    match decimal_parts(s) {
        None => None,
        Some(p) => {
            let mag = digits_val(p.int_digits) * 1000 + frac_milli(p.frac_digits);
            Some(
                if p.negative {
                    if frac_remainder_nonzero(p.frac_digits) {
                        -mag - 1
                    } else {
                        -mag
                    }
                } else {
                    mag
                },
            )
        },
    }
}

proof fn lemma_find_dot_skip(s: Seq<char>, i: int, from: int)
    requires
        0 <= i,
        0 <= from,
        i + from <= s.len(),
    ensures
        find_dot(s.skip(i), from) == match find_dot(s, i + from) {
            None => None::<int>,
            Some(d) => Some(d - i),
        },
    decreases s.len() - i - from,
{
    if from < s.skip(i).len() {
        assert(s.skip(i)[from] == s[i + from]);
        if s[i + from] != '.' {
            lemma_find_dot_skip(s, i, from + 1);
        }
    }
}

proof fn lemma_digits_val_nonneg(s: Seq<char>)
    requires
        all_digits(s),
    ensures
        digits_val(s) >= 0,
    decreases s.len(),
{
    if s.len() > 0 {
        assert(all_digits(s.drop_last()));
        lemma_digits_val_nonneg(s.drop_last());
    }
}

/// Reads a digit string left to right; reports a non-digit, and whether the
/// value outgrew a signed 64-bit word.
fn parse_digits(t: &str) -> (r: Option<(i64, bool)>)
    ensures
        match r {
            None => !all_digits(t@),
            Some((acc, sat)) => all_digits(t@) && if sat {
                digits_val(t@) > i64::MAX
            } else {
                acc as int == digits_val(t@)
            },
        },
{
    let len = t.unicode_len();
    let mut acc: i64 = 0;
    let mut sat = false;
    let mut j: usize = 0;
    while j < len
        invariant
            j <= len,
            len == t@.len(),
            all_digits(t@.take(j as int)),
            if sat {
                digits_val(t@.take(j as int)) > i64::MAX
            } else {
                acc as int == digits_val(t@.take(j as int))
            },
        decreases len - j,
    {
        let c = t.get_char(j);
        let cv = c as u32;
        if cv < 48 || cv > 57 {
            proof {
                assert(!is_digit(t@[j as int]));
            }
            return None;
        }
        let d: i64 = (cv - 48) as i64;
        proof {
            assert(t@.take(j as int + 1).drop_last() =~= t@.take(j as int));
            assert(t@.take(j as int + 1).last() == t@[j as int]);
        }
        if sat {
            proof {
                let v = digits_val(t@.take(j as int));
                assert(v * 10 + d >= v) by (nonlinear_arith)
                    requires
                        v > 0,
                        d >= 0;
            }
        } else {
            if acc > (i64::MAX - d) / 10 {
                proof {
                    let m = i64::MAX as int;
                    assert((acc as int) * 10 + d > m) by (nonlinear_arith)
                        requires
                            (acc as int) > (m - d) / 10,
                            0 <= d <= 9,
                            m == 0x7fff_ffff_ffff_ffffint;
                }
                sat = true;
            } else {
                proof {
                    lemma_digits_val_nonneg(t@.take(j as int));
                    let m = i64::MAX as int;
                    assert((acc as int) * 10 + d <= m) by (nonlinear_arith)
                        requires
                            (acc as int) <= (m - d) / 10,
                            0 <= (acc as int),
                            0 <= d <= 9,
                            m == 0x7fff_ffff_ffff_ffffint;
                }
                acc = acc * 10 + d;
            }
        }
        j = j + 1;
    }
    proof {
        assert(t@.take(len as int) =~= t@);
    }
    Some((acc, sat))
}

/// Reads the fraction digits: the first three as thousandths, the rest only
/// for whether any is non-zero. Reports a non-digit.
fn parse_fraction(f: &str) -> (r: Option<(u16, bool)>)
    ensures
        match r {
            None => !all_digits(f@),
            Some((m, rest)) => all_digits(f@) && m as int == frac_milli(f@) && rest
                == frac_remainder_nonzero(f@),
        },
{
    let len = f.unicode_len();
    let mut m: u16 = 0;
    let mut rest = false;
    let mut j: usize = 0;
    while j < len
        invariant
            j <= len,
            len == f@.len(),
            all_digits(f@.take(j as int)),
            m as int == if j >= 3 {
                digits_val(f@.take(3))
            } else {
                digits_val(f@.take(j as int))
            },
            m as int <= if j >= 3 {
                999int
            } else if j == 2 {
                99int
            } else if j == 1 {
                9int
            } else {
                0int
            },
            rest == exists|i: int| 3 <= i < j && f@[i] != '0',
        decreases len - j,
    {
        let c = f.get_char(j);
        let cv = c as u32;
        if cv < 48 || cv > 57 {
            proof {
                assert(!is_digit(f@[j as int]));
            }
            return None;
        }
        proof {
            assert(f@.take(j as int + 1).drop_last() =~= f@.take(j as int));
            assert(f@.take(j as int + 1).last() == f@[j as int]);
        }
        if j < 3 {
            let d: u16 = (cv - 48) as u16;
            m = m * 10 + d;
        } else {
            if cv != 48 {
                rest = true;
            }
            proof {
                if exists|i: int| 3 <= i < j + 1 && f@[i] != '0' {
                }
            }
        }
        j = j + 1;
    }
    proof {
        assert(f@.take(len as int) =~= f@);
        if len >= 3 {
            assert(f@.take(3) =~= f@.take(3));
        }
    }
    let pad: u16 = if len == 0 {
        1000
    } else if len == 1 {
        100
    } else if len == 2 {
        10
    } else {
        1
    };
    proof {
        reveal_with_fuel(pow10, 4);
    }
    Some((m * pad, rest))
}

/// Index of the first decimal point at or after `from`, scanning the text.
fn scan_dot(s: &str, from: usize) -> (r: Option<usize>)
    requires
        from <= s@.len(),
    ensures
        match r {
            None => find_dot(s@, from as int) is None,
            Some(d) => from <= d < s@.len() && find_dot(s@, from as int) == Some(d as int),
        },
{
    let len = s.unicode_len();
    let mut j: usize = from;
    while j < len
        invariant
            from <= j <= len,
            len == s@.len(),
            find_dot(s@, from as int) == find_dot(s@, j as int),
        decreases len - j,
    {
        let c = s.get_char(j);
        if c == '.' {
            return Some(j);
        }
        j = j + 1;
    }
    None
}

/// `floor(v * 1000)` for the decimal literal `s` of value `v`, pressed into
/// a signed 64-bit result; not a literal is the parse failure that is fatal
/// to an extraction pass.
pub fn milliunits(s: &str) -> (r: Result<i64, PassError>)
    ensures
        match r {
            Ok(v) => milli_spec(s@) matches Some(m) && v as int == clamp_i64(m),
            Err(e) => e == PassError::NumericParseError && milli_spec(s@) is None,
        },
{
    let len = s.unicode_len();
    let mut start: usize = 0;
    let mut negative = false;
    if len > 0 {
        let c0 = s.get_char(0);
        if c0 == '-' {
            negative = true;
            start = 1;
        } else if c0 == '+' {
            start = 1;
        }
    }
    let ghost body: Seq<char> = if start == 1 {
        s@.skip(1)
    } else {
        s@
    };
    proof {
        if start == 0 {
            assert(body =~= s@.skip(0));
        }
    }
    let dot = scan_dot(s, start);
    proof {
        lemma_find_dot_skip(s@, start as int, 0);
    }
    let (int_text, frac_text): (&str, &str) = match dot {
        Some(d) => (s.substring_char(start, d), s.substring_char(d + 1, len)),
        None => (s.substring_char(start, len), s.substring_char(len, len)),
    };
    proof {
        match find_dot(body, 0) {
            None => {
                assert(int_text@ =~= body);
                assert(frac_text@ =~= Seq::<char>::empty());
            },
            Some(d) => {
                assert(int_text@ =~= body.take(d));
                assert(frac_text@ =~= body.skip(d + 1));
            },
        }
    }
    let int_len = int_text.unicode_len();
    let frac_len = frac_text.unicode_len();
    let parsed_int = parse_digits(int_text);
    let parsed_frac = parse_fraction(frac_text);
    match (parsed_int, parsed_frac) {
        (Some((acc, sat)), Some((fm, rest))) => {
            if int_len == 0 && frac_len == 0 {
                Err(PassError::NumericParseError)
            } else if sat {
                proof {
                    let iv = digits_val(int_text@);
                    let mag = iv * 1000 + frac_milli(frac_text@);
                    assert(iv * 1000 >= iv) by (nonlinear_arith)
                        requires
                            iv > 0;
                }
                if negative {
                    Ok(i64::MIN)
                } else {
                    Ok(i64::MAX)
                }
            } else {
                proof {
                    lemma_digits_val_nonneg(int_text@);
                }
                let mag: i128 = (acc as i128) * 1000 + (fm as i128);
                let signed: i128 = if negative {
                    if rest {
                        -mag - 1
                    } else {
                        -mag
                    }
                } else {
                    mag
                };
                if signed > i64::MAX as i128 {
                    Ok(i64::MAX)
                } else if signed < i64::MIN as i128 {
                    Ok(i64::MIN)
                } else {
                    Ok(signed as i64)
                }
            }
        },
        _ => Err(PassError::NumericParseError),
    }
}

} // verus!
