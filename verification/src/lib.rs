//! Telegram reassembly and energy accounting for a smart-meter bridge.
//!
//! The library reconstructs meter telegrams from an arbitrarily chunked
//! character stream, extracts tagged numeric fields from the telegram text,
//! decodes scaled fixed-point register values read from a field bus, and
//! combines both sources into instantaneous and lifetime net-usage figures,
//! packaged as a named measurement for a time-series sink.
//!
//! All I/O (the TCP stream delivering chunks, the field-bus transport, the
//! sink submission) lives outside this crate; the functions here are total
//! over plain values and carry exact contracts.

use vstd::prelude::*;

pub mod assembler;
pub mod extract;
pub mod measurement;
pub mod numeric;
pub mod pipeline;
pub mod record;
pub mod registers;
pub mod usage;

verus! {

/// Base-ten power: `pow10(e)` is ten multiplied by itself `e` times.
pub open spec fn pow10(e: nat) -> int
    decreases e,
{
    if e == 0 {
        1
    } else {
        10 * pow10((e - 1) as nat)
    }
}

pub proof fn lemma_pow10_positive(e: nat)
    ensures
        pow10(e) >= 1,
    decreases e,
{
    if e > 0 {
        lemma_pow10_positive((e - 1) as nat);
    }
}

pub proof fn lemma_pow10_increases(a: nat, b: nat)
    requires
        a <= b,
    ensures
        pow10(a) <= pow10(b),
    decreases b,
{
    if a < b {
        lemma_pow10_increases(a, (b - 1) as nat);
        lemma_pow10_positive((b - 1) as nat);
    }
}

/// The value actually stored when a mathematical result is pressed into a
/// signed 64-bit field: out-of-range results stick to the nearest bound.
pub open spec fn clamp_i64(v: int) -> int {
    if v > i64::MAX {
        i64::MAX as int
    } else if v < i64::MIN {
        i64::MIN as int
    } else {
        v
    }
}

/// Failures that abort one extraction pass.
///
/// `NumericParseError` is fatal to the pass: a matched field value was not a
/// decimal literal. `MeasurementBuildError` abandons the pass: a field name
/// offered to the measurement was invalid (empty).
#[derive(Debug, Clone, Copy, PartialEq, Eq, Structural)]
pub enum PassError {
    NumericParseError,
    MeasurementBuildError,
}

} // verus!
