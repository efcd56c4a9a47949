//! Energy accounting: folding tagged fields into import/export totals and
//! combining them with field-bus readings into net-usage figures.

use vstd::prelude::*;

use crate::clamp_i64;
use crate::numeric::milli_spec;
use crate::numeric::milliunits;
use crate::record::EnergyRecord;
use crate::record::RecordView;
use crate::extract::views_of;
use crate::PassError;

verus! {

/// The mathematical image of the accumulated totals.
pub struct TotalsView {
    pub import: int,
    pub export: int,
    pub imported_lifetime: int,
    pub exported_lifetime: int,
}

/// Watt totals accumulated from one extraction pass: instantaneous import
/// and export, and the two lifetime counters. Each defaults to zero and is
/// overwritten by the matching tagged field; a repeated code overwrites
/// again, so the last occurrence wins.
#[derive(Debug, Clone, Copy, PartialEq, Eq, Structural)]
pub struct UsageTotals {
    pub import: i64,
    pub export: i64,
    pub imported_lifetime: i64,
    pub exported_lifetime: i64,
}

impl View for UsageTotals {
    type V = TotalsView;

    open spec fn view(&self) -> TotalsView {
        TotalsView {
            import: self.import as int,
            export: self.export as int,
            imported_lifetime: self.imported_lifetime as int,
            exported_lifetime: self.exported_lifetime as int,
        }
    }
}

pub open spec fn zero_totals() -> TotalsView {
    TotalsView { import: 0, export: 0, imported_lifetime: 0, exported_lifetime: 0 }
}

/// One field's effect on the totals: the four known codes each overwrite
/// one total with the field's watt value; any other code changes nothing.
pub open spec fn apply_field(t: TotalsView, code: Seq<char>, milli: int) -> TotalsView {
    if code == "1.7.0"@ {
        TotalsView { import: milli, ..t }
    } else if code == "2.7.0"@ {
        TotalsView { export: milli, ..t }
    } else if code == "1.8.0"@ {
        TotalsView { imported_lifetime: milli, ..t }
    } else if code == "2.8.0"@ {
        TotalsView { exported_lifetime: milli, ..t }
    } else {
        t
    }
}

/// The totals after every field in order, each value converted to watts;
/// nothing when any field's value is not a decimal literal — that failure
/// is fatal to the pass whatever the field's code.
pub open spec fn fold_totals(fields: Seq<RecordView>, t: TotalsView) -> Option<TotalsView>
    decreases fields.len(),
{
    if fields.len() == 0 {
        Some(t)
    } else {
        match milli_spec(fields[0].value) {
            None => None,
            Some(m) => fold_totals(fields.skip(1), apply_field(t, fields[0].code, clamp_i64(m))),
        }
    }
}

/// Instantaneous net consumption under the fixed case split, evaluated in
/// this order: simultaneous import and export first.
pub open spec fn usage_spec(import: int, export: int, production: int) -> int {
    if import > 0 && export > 0 {
        production + import - export
    } else if import > 0 {
        import + production
    } else {
        production - export
    }
}

/// Presses a wide intermediate sum into a signed 64-bit result.
pub(crate) fn clamp_to_i64(v: i128) -> (r: i64)
    ensures
        r as int == clamp_i64(v as int),
{
    if v > i64::MAX as i128 {
        i64::MAX
    } else if v < i64::MIN as i128 {
        i64::MIN
    } else {
        v as i64
    }
}

/// Folds the extracted fields into watt totals, converting each value from
/// kilowatts; any non-decimal value is the parse failure fatal to the pass.
pub fn accumulate_totals(fields: &Vec<EnergyRecord>) -> (r: Result<UsageTotals, PassError>)
    ensures
        match r {
            Ok(t) => fold_totals(views_of(fields@), zero_totals()) == Some(t@),
            Err(e) => e == PassError::NumericParseError && fold_totals(
                views_of(fields@),
                zero_totals(),
            ) is None,
        },
{
    let code_import = String::from_str("1.7.0");
    let code_export = String::from_str("2.7.0");
    let code_imported_lifetime = String::from_str("1.8.0");
    let code_exported_lifetime = String::from_str("2.8.0");
    let mut totals = UsageTotals {
        import: 0,
        export: 0,
        imported_lifetime: 0,
        exported_lifetime: 0,
    };
    let mut i: usize = 0;
    let ghost all: Seq<RecordView> = views_of(fields@);
    proof {
        assert(all.skip(0) =~= all);
    }
    while i < fields.len()
        invariant
            i <= fields@.len(),
            all == views_of(fields@),
            code_import@ == "1.7.0"@,
            code_export@ == "2.7.0"@,
            code_imported_lifetime@ == "1.8.0"@,
            code_exported_lifetime@ == "2.8.0"@,
            fold_totals(all, zero_totals()) == fold_totals(all.skip(i as int), totals@),
        decreases fields@.len() - i,
    {
        let rec = &fields[i];
        proof {
            assert(all.skip(i as int)[0] == all[i as int]);
            assert(all[i as int] == fields@[i as int]@);
            assert(all.skip(i as int).skip(1) =~= all.skip(i as int + 1));
        }
        let milli = match milliunits(rec.value.as_str()) {
            Ok(v) => v,
            Err(e) => {
                return Err(e);
            },
        };
        if rec.obis_code == code_import {
            totals.import = milli;
        } else if rec.obis_code == code_export {
            totals.export = milli;
        } else if rec.obis_code == code_imported_lifetime {
            totals.imported_lifetime = milli;
        } else if rec.obis_code == code_exported_lifetime {
            totals.exported_lifetime = milli;
        }
        i = i + 1;
    }
    proof {
        assert(all.skip(fields@.len() as int) =~= Seq::<RecordView>::empty());
    }
    Ok(totals)
}

/// Instantaneous net consumption by the fixed case split, the result
/// pressed into a signed 64-bit word.
pub fn compute_usage(import: i64, export: i64, production: i64) -> (r: i64)
    ensures
        r as int == clamp_i64(usage_spec(import as int, export as int, production as int)),
{
    let im = import as i128;
    let ex = export as i128;
    let pr = production as i128;
    let v: i128 = if import > 0 && export > 0 {
        pr + im - ex
    } else if import > 0 {
        im + pr
    } else {
        pr - ex
    };
    clamp_to_i64(v)
}

/// Lifetime net consumption: lifetime production plus imported lifetime
/// minus exported lifetime, pressed into a signed 64-bit word.
pub fn compute_lifetime_usage(
    production_lifetime: i64,
    imported_lifetime: i64,
    exported_lifetime: i64,
) -> (r: i64)
    ensures
        r as int == clamp_i64(
            production_lifetime + imported_lifetime - exported_lifetime,
        ),
{
    clamp_to_i64(
        production_lifetime as i128 + imported_lifetime as i128 - exported_lifetime as i128,
    )
}

} // verus!
