//! The tagged meter field: a dot-separated code, a decimal value, and a
//! unit, as scanned out of telegram text.

use vstd::prelude::*;

use crate::extract::extract_from;
use crate::extract::extract_fields;

verus! {

/// The mathematical image of one tagged field.
pub struct RecordView {
    pub code: Seq<char>,
    pub value: Seq<char>,
    pub unit: Seq<char>,
}

/// Failure of the strict single-telegram validation path.
#[derive(Debug, PartialEq, Eq)]
pub enum EnergyRecordError {
    ParseError(),
    OtherError(),
}

/// One tagged numeric field of a telegram: an OBIS code, a decimal value
/// literal, and its unit.
#[derive(Debug, PartialEq, Eq)]
pub struct EnergyRecord {
    pub obis_code: String,
    pub value: String,
    pub unit: String,
}

impl View for EnergyRecord {
    type V = RecordView;

    open spec fn view(&self) -> RecordView {
        RecordView { code: self.obis_code@, value: self.value@, unit: self.unit@ }
    }
}

impl EnergyRecord {
    /// Strict validation of a complete telegram: the first tagged field it
    /// holds, or a parse failure when it holds none. The lenient per-chunk
    /// pipeline instead treats zero fields as an empty extraction.
    pub fn try_from(text: String) -> (r: Result<EnergyRecord, EnergyRecordError>)
        ensures
            match r {
                Ok(rec) => extract_from(text@, 0).len() > 0 && rec@ == extract_from(text@, 0)[0],
                Err(e) => e == EnergyRecordError::ParseError() && extract_from(text@, 0).len()
                    == 0,
            },
    {
        let mut fields = extract_fields(text.as_str());
        if fields.len() == 0 {
            Err(EnergyRecordError::ParseError())
        } else {
            proof {
                assert(fields@.map_values(|er: EnergyRecord| er@)[0] == fields@[0]@);
            }
            let first = fields.remove(0);
            Ok(first)
        }
    }
}

} // verus!
