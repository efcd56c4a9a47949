//! One extraction pass: from the raw buffer text and the two field-bus
//! readings to the finished measurement.
//!
//! The pass strips carriage-return/line-feed pairs from the buffer, scans
//! for tagged fields, folds them into watt totals, decodes the two bus
//! readings, applies the usage case split, and builds the measurement. The
//! whole pass is a pure function of its inputs: the contract below pins the
//! result for every buffer content and every pair of readings.

use vstd::prelude::*;

use crate::assembler::strip_crlf;
use crate::assembler::strip_crlf_text;
use crate::clamp_i64;
use crate::extract::extract_fields;
use crate::extract::extract_from;
use crate::measurement::build_spec;
use crate::measurement::build_measurement;
use crate::measurement::Measurement;
use crate::measurement::MeasurementView;
use crate::measurement::valid_field_names;
use crate::record::RecordView;
use crate::registers::instantaneous_spec;
use crate::registers::instantaneous_watts;
use crate::registers::lifetime_spec;
use crate::registers::lifetime_value;
use crate::registers::ScaledRegisterValue;
use crate::usage::accumulate_totals;
use crate::usage::compute_lifetime_usage;
use crate::usage::compute_usage;
use crate::usage::fold_totals;
use crate::usage::usage_spec;
use crate::usage::zero_totals;
use crate::PassError;

verus! {

/// The tagged fields an extraction pass sees: those of the buffer text with
/// carriage-return/line-feed pairs removed.
pub open spec fn pass_fields(buffer: Seq<char>) -> Seq<RecordView> {
    extract_from(strip_crlf(buffer), 0)
}

/// The outcome of one extraction pass over the given buffer text and the
/// two field-bus readings.
pub open spec fn pass_spec(
    buffer: Seq<char>,
    power: ScaledRegisterValue,
    lifetime: ScaledRegisterValue,
) -> Result<MeasurementView, PassError> {
    let fields = pass_fields(buffer);
    match fold_totals(fields, zero_totals()) {
        None => Err(PassError::NumericParseError),
        Some(t) => {
            let production = clamp_i64(instantaneous_spec(power.raw as int, power.scale as int));
            let usage = clamp_i64(usage_spec(t.import, t.export, production));
            let production_lifetime = clamp_i64(
                lifetime_spec(lifetime.raw as int, lifetime.scale as int),
            );
            let lifetime_usage = clamp_i64(
                production_lifetime + t.imported_lifetime - t.exported_lifetime,
            );
            if valid_field_names(fields) {
                Ok(
                    MeasurementView {
                        name: "energy"@,
                        fields: build_spec(fields, production, usage, lifetime_usage),
                    },
                )
            } else {
                Err(PassError::MeasurementBuildError)
            }
        },
    }
}

/// Runs one extraction pass over the raw buffer text, joined with the two
/// field-bus readings: instantaneous power, and lifetime production.
pub fn extraction_pass(
    text: &str,
    power: &ScaledRegisterValue,
    lifetime: &ScaledRegisterValue,
) -> (r: Result<Measurement, PassError>)
    ensures
        match r {
            Ok(m) => pass_spec(text@, *power, *lifetime) matches Ok(mv) && m@ == mv,
            Err(e) => pass_spec(text@, *power, *lifetime) == Err::<MeasurementView, PassError>(e),
        },
{
    let stripped = strip_crlf_text(text);
    let fields = extract_fields(stripped.as_str());
    let totals = match accumulate_totals(&fields) {
        Ok(t) => t,
        Err(e) => {
            return Err(e);
        },
    };
    let production = instantaneous_watts(power);
    let usage = compute_usage(totals.import, totals.export, production);
    let production_lifetime = lifetime_value(lifetime);
    let lifetime_usage = compute_lifetime_usage(
        production_lifetime,
        totals.imported_lifetime,
        totals.exported_lifetime,
    );
    build_measurement(&fields, production, usage, lifetime_usage)
}

/// An extraction pass is a pure function of the telegram text and the two
/// readings: running it again over the same completed telegram yields the
/// identical tagged-field sequence and the identical measurement.
pub proof fn lemma_reextraction_identical(
    first: Seq<char>,
    second: Seq<char>,
    power: ScaledRegisterValue,
    lifetime: ScaledRegisterValue,
)
    requires
        first == second,
    ensures
        pass_fields(first) == pass_fields(second),
        pass_spec(first, power, lifetime) == pass_spec(second, power, lifetime),
{
}

} // verus!
