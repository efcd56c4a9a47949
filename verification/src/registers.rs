//! Decoding of scaled fixed-point values read from field-bus holding
//! registers.
//!
//! A reading is a raw magnitude (one register, or two combined big-endian)
//! together with a signed decimal scale exponent taken from a further
//! register. Two decodings exist, and they differ deliberately:
//!
//! - the instantaneous decoding truncates only the final product, so a
//!   negative scale divides the magnitude;
//! - the lifetime decoding truncates the scale term `10^scale` *before*
//!   multiplying, so any negative scale collapses the whole value to zero.

use vstd::prelude::*;

use crate::clamp_i64;
use crate::lemma_pow10_increases;
use crate::lemma_pow10_positive;
use crate::pow10;

verus! {

/// A fixed-point value recovered from holding registers: the decoded value
/// is `raw * 10^scale`, with the truncation order depending on the reading.
#[derive(Debug, Clone, Copy, PartialEq, Eq, Structural)]
pub struct ScaledRegisterValue {
    pub raw: u32,
    pub scale: i16,
}

/// A 16-bit register word reinterpreted as a signed 16-bit integer.
pub open spec fn as_signed16(x: int) -> int {
    if x < 0x8000 {
        x
    } else {
        x - 0x10000
    }
}

/// Instantaneous decoding: `floor(raw * 10^scale)`. For a non-negative raw
/// magnitude a negative scale is an exact integer division.
pub open spec fn instantaneous_spec(raw: int, scale: int) -> int {
    if scale >= 0 {
        raw * pow10(scale as nat)
    } else {
        raw / pow10((-scale) as nat)
    }
}

/// Lifetime decoding: `floor(raw * floor(10^scale))`. The scale term is
/// truncated before the multiplication, so `floor(10^scale) == 0` whenever
/// the scale is negative, and the whole value is zero.
pub open spec fn lifetime_spec(raw: int, scale: int) -> int {
    if scale >= 0 {
        raw * pow10(scale as nat)
    } else {
        0
    }
}

proof fn lemma_pow10_18_value()
    ensures
        pow10(18) == 1_000_000_000_000_000_000,
{
    reveal_with_fuel(pow10, 19);
}

proof fn lemma_pow10_19_value()
    ensures
        pow10(19) == 10_000_000_000_000_000_000,
{
    reveal_with_fuel(pow10, 20);
}

proof fn lemma_pow10_10_value()
    ensures
        pow10(10) == 10_000_000_000,
{
    reveal_with_fuel(pow10, 11);
}

/// Exact power of ten, for exponents small enough to fit a 64-bit word.
fn pow10_u64(e: u32) -> (r: u64)
    requires
        e <= 18,
    ensures
        r as int == pow10(e as nat),
{
    let mut p: u64 = 1;
    let mut i: u32 = 0;
    while i < e
        invariant
            i <= e <= 18,
            p as int == pow10(i as nat),
        decreases e - i,
    {
        proof {
            lemma_pow10_increases((i + 1) as nat, 18);
            lemma_pow10_18_value();
        }
        p = p * 10;
        i = i + 1;
    }
    p
}

/// `raw * 10^e`, pressed into a signed 64-bit result.
fn mul_pow10_clamped(raw: u32, e: u32) -> (r: i64)
    ensures
        r as int == clamp_i64(raw as int * pow10(e as nat)),
{
    if raw == 0 {
        0
    } else if e > 18 {
        proof {
            let pw = pow10(e as nat);
            lemma_pow10_19_value();
            lemma_pow10_increases(19, e as nat);
            assert(raw as int * pw >= pw) by (nonlinear_arith)
                requires
                    raw >= 1,
                    pw >= 0;
        }
        i64::MAX
    } else {
        let p: u64 = pow10_u64(e);
        proof {
            lemma_pow10_18_value();
            lemma_pow10_increases(e as nat, 18);
            assert(raw as int * p as int <= 0xFFFF_FFFF * 1_000_000_000_000_000_000int)
                by (nonlinear_arith)
                requires
                    0 <= (raw as int) && (raw as int) <= 0xFFFF_FFFF,
                    0 <= (p as int) && (p as int) <= 1_000_000_000_000_000_000int;
            assert(raw as int * p as int >= 0) by (nonlinear_arith)
                requires
                    (raw as int) >= 0,
                    (p as int) >= 0;
        }
        let prod: u128 = (raw as u128) * (p as u128);
        if prod > i64::MAX as u128 {
            i64::MAX
        } else {
            prod as i64
        }
    }
}

/// Instantaneous watts from a power reading: `floor(raw * 10^scale)`,
/// truncated to an integer, out-of-range results pressed to the bounds.
pub fn instantaneous_watts(v: &ScaledRegisterValue) -> (r: i64)
    ensures
        r as int == clamp_i64(instantaneous_spec(v.raw as int, v.scale as int)),
{
    if v.scale >= 0 {
        mul_pow10_clamped(v.raw, v.scale as u32)
    } else {
        let e: i32 = -(v.scale as i32);
        if e > 9 {
            proof {
                let pw = pow10(e as nat);
                lemma_pow10_10_value();
                lemma_pow10_increases(10, e as nat);
                assert(v.raw as int / pw == 0) by (nonlinear_arith)
                    requires
                        0 <= (v.raw as int),
                        (v.raw as int) < pw;
            }
            0
        } else {
            let p: u64 = pow10_u64(e as u32);
            proof {
                lemma_pow10_positive(e as nat);
                assert(v.raw as int / p as int <= v.raw as int) by (nonlinear_arith)
                    requires
                        0 <= (v.raw as int),
                        1 <= (p as int);
                assert(v.raw as int / p as int >= 0) by (nonlinear_arith)
                    requires
                        0 <= (v.raw as int),
                        1 <= (p as int);
            }
            let q: u64 = (v.raw as u64) / p;
            q as i64
        }
    }
}

/// Lifetime value from a cumulative reading: `floor(raw * floor(10^scale))`,
/// zero whenever the scale is negative, out-of-range results pressed to the
/// bounds.
pub fn lifetime_value(v: &ScaledRegisterValue) -> (r: i64)
    ensures
        r as int == clamp_i64(lifetime_spec(v.raw as int, v.scale as int)),
{
    if v.scale >= 0 {
        mul_pow10_clamped(v.raw, v.scale as u32)
    } else {
        0
    }
}

/// Reinterprets a register word as a signed 16-bit scale exponent.
pub fn reg_to_scale(x: u16) -> (r: i16)
    ensures
        r as int == as_signed16(x as int),
{
    if x < 32768 {
        x as i16
    } else {
        ((x as i32) - 65536) as i16
    }
}

/// Builds a power reading from the two registers of an instantaneous-power
/// read: the first register is the raw magnitude, the second the scale.
pub fn decode_power_registers(regs: &Vec<u16>) -> (r: ScaledRegisterValue)
    requires
        regs@.len() == 2,
    ensures
        r.raw as int == regs@[0] as int,
        r.scale as int == as_signed16(regs@[1] as int),
{
    ScaledRegisterValue { raw: regs[0] as u32, scale: reg_to_scale(regs[1]) }
}

/// Builds a lifetime reading: the two magnitude registers are combined
/// big-endian into a 32-bit raw value, and the lone scale register is
/// reinterpreted as signed.
pub fn decode_lifetime_registers(magnitude: &Vec<u16>, scale: &Vec<u16>) -> (r: ScaledRegisterValue)
    requires
        magnitude@.len() == 2,
        scale@.len() == 1,
    ensures
        r.raw as int == magnitude@[0] as int * 0x1_0000 + magnitude@[1] as int,
        r.scale as int == as_signed16(scale@[0] as int),
{
    let hi: u32 = magnitude[0] as u32;
    let lo: u32 = magnitude[1] as u32;
    ScaledRegisterValue { raw: hi * 0x1_0000 + lo, scale: reg_to_scale(scale[0]) }
}

} // verus!
