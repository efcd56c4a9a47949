//! The measurement assembled from one extraction pass: a named mapping of
//! field names to values, ready for submission to a time-series sink.
//!
//! Fields form a mapping: putting a name that is already present overwrites
//! its value in place, putting a new name appends it. Every extracted
//! tagged field enters under its code with its decimal literal value, and
//! the derived `production`, `usage` and `lifetime_usage` figures enter as
//! integers. An empty field name is invalid and abandons the pass.

use vstd::prelude::*;

use crate::record::EnergyRecord;
use crate::record::RecordView;
use crate::extract::views_of;
use crate::PassError;

verus! {

/// The mathematical image of one field value.
pub enum FieldValueView {
    Decimal(Seq<char>),
    Integer(int),
}

/// One field value: a decimal literal kept verbatim from the telegram, or a
/// derived integer figure.
#[derive(Debug, Clone, PartialEq, Eq)]
pub enum FieldValue {
    Decimal(String),
    Integer(i64),
}

impl View for FieldValue {
    type V = FieldValueView;

    open spec fn view(&self) -> FieldValueView {
        match self {
            FieldValue::Decimal(s) => FieldValueView::Decimal(s@),
            FieldValue::Integer(v) => FieldValueView::Integer(*v as int),
        }
    }
}

/// The mathematical image of a measurement.
pub struct MeasurementView {
    pub name: Seq<char>,
    pub fields: Seq<(Seq<char>, FieldValueView)>,
}

/// One named measurement, built once per extraction pass, immutable once
/// built.
#[derive(Debug, PartialEq, Eq)]
pub struct Measurement {
    pub name: String,
    pub fields: Vec<(String, FieldValue)>,
}

pub open spec fn pairs_view(s: Seq<(String, FieldValue)>) -> Seq<(Seq<char>, FieldValueView)> {
    s.map_values(|p: (String, FieldValue)| (p.0@, p.1@))
}

impl View for Measurement {
    type V = MeasurementView;

    open spec fn view(&self) -> MeasurementView {
        MeasurementView { name: self.name@, fields: pairs_view(self.fields@) }
    }
}

/// Mapping update: the first pair carrying the name is overwritten in
/// place; a name not yet present is appended.
pub open spec fn put_spec(
    fields: Seq<(Seq<char>, FieldValueView)>,
    name: Seq<char>,
    value: FieldValueView,
) -> Seq<(Seq<char>, FieldValueView)>
    decreases fields.len(),
{
    if fields.len() == 0 {
        seq![(name, value)]
    } else if fields[0].0 == name {
        seq![(name, value)] + fields.skip(1)
    } else {
        seq![fields[0]] + put_spec(fields.skip(1), name, value)
    }
}

proof fn lemma_put_found(
    fields: Seq<(Seq<char>, FieldValueView)>,
    name: Seq<char>,
    value: FieldValueView,
    i: int,
)
    requires
        0 <= i < fields.len(),
        fields[i].0 == name,
        forall|j: int| 0 <= j < i ==> (#[trigger] fields[j]).0 != name,
    ensures
        put_spec(fields, name, value) == fields.update(i, (name, value)),
    decreases i,
{
    if i == 0 {
        assert(seq![(name, value)] + fields.skip(1) =~= fields.update(0, (name, value)));
    } else {
        assert(fields.skip(1)[i - 1].0 == name);
        assert(forall|j: int| 0 <= j < i - 1 ==> (#[trigger] fields.skip(1)[j]).0 != name);
        lemma_put_found(fields.skip(1), name, value, i - 1);
        assert(seq![fields[0]] + fields.skip(1).update(i - 1, (name, value)) =~= fields.update(
            i,
            (name, value),
        ));
    }
}

proof fn lemma_put_missing(
    fields: Seq<(Seq<char>, FieldValueView)>,
    name: Seq<char>,
    value: FieldValueView,
)
    requires
        forall|j: int| 0 <= j < fields.len() ==> (#[trigger] fields[j]).0 != name,
    ensures
        put_spec(fields, name, value) == fields.push((name, value)),
    decreases fields.len(),
{
    if fields.len() == 0 {
        assert(seq![(name, value)] =~= fields.push((name, value)));
    } else {
        assert(forall|j: int|
            0 <= j < fields.skip(1).len() ==> (#[trigger] fields.skip(1)[j]).0 != name);
        lemma_put_missing(fields.skip(1), name, value);
        assert(seq![fields[0]] + fields.skip(1).push((name, value)) =~= fields.push(
            (name, value),
        ));
    }
}

/// Puts one field into the mapping: overwrites the first pair carrying the
/// name, appends when the name is new.
pub fn put_field(fields: &mut Vec<(String, FieldValue)>, name: String, value: FieldValue)
    ensures
        pairs_view(final(fields)@) == put_spec(pairs_view(old(fields)@), name@, value@),
{
    let ghost orig: Seq<(Seq<char>, FieldValueView)> = pairs_view(fields@);
    let ghost nm: Seq<char> = name@;
    let ghost vv: FieldValueView = value@;
    let key = name.clone();
    let mut i: usize = 0;
    while i < fields.len()
        invariant
            i <= fields@.len(),
            orig == pairs_view(fields@),
            orig == pairs_view(old(fields)@),
            key@ == nm,
            name@ == nm,
            value@ == vv,
            forall|j: int| 0 <= j < i ==> (#[trigger] orig[j]).0 != nm,
        decreases fields@.len() - i,
    {
        proof {
            assert(orig[i as int] == (fields@[i as int].0@, fields@[i as int].1@));
        }
        let hit: bool = fields[i].0 == key;
        proof {
            assert(hit ==> fields@[i as int].0@ == nm);
            assert(hit ==> orig[i as int].0 == nm);
        }
        if hit {
            let ghost before: Seq<(String, FieldValue)> = fields@;
            let ghost elem: (String, FieldValue) = (name, value);
            let _ = fields.remove(i);
            let ghost mid: Seq<(String, FieldValue)> = fields@;
            fields.insert(i, (name, value));
            proof {
                before.remove_ensures(i as int);
                mid.insert_ensures(i as int, elem);
                let after = fields@;
                assert(after == mid.insert(i as int, elem));
                assert(after[i as int] == elem);
                assert(forall|j: int| 0 <= j < i ==> after[j] == #[trigger] before[j]);
                assert(forall|j: int| i < j < after.len() ==> after[j] == #[trigger] before[j])
                    by {
                    assert(forall|j: int|
                        i < j < after.len() ==> after[j] == #[trigger] mid[j - 1]
                            && mid[j - 1] == before[j]);
                };
                assert(elem.0@ == nm);
                assert(elem.1@ == vv);
                assert(forall|j: int|
                    0 <= j < after.len() ==> pairs_view(after)[j] == (
                        (#[trigger] after[j]).0@,
                        after[j].1@,
                    ));
                assert(forall|j: int|
                    0 <= j < before.len() ==> orig[j] == ((#[trigger] before[j]).0@, before[j].1@));
                assert(pairs_view(after) =~= orig.update(i as int, (nm, vv)));
                lemma_put_found(orig, nm, vv, i as int);
                assert(pairs_view(fields@) == put_spec(orig, nm, vv));
            }
            return ;
        }
        i = i + 1;
    }
    fields.push((name, value));
    proof {
        assert(pairs_view(fields@) =~= orig.push((nm, vv)));
        lemma_put_missing(orig, nm, vv);
        assert(pairs_view(fields@) == put_spec(orig, nm, vv));
    }
}

/// The mapping holding every extracted field in order under its code, with
/// its decimal literal value; a repeated code overwrites, so the last
/// occurrence wins.
pub open spec fn tagged_fields_spec(fields: Seq<RecordView>) -> Seq<(Seq<char>, FieldValueView)>
    decreases fields.len(),
{
    if fields.len() == 0 {
        Seq::empty()
    } else {
        put_spec(
            tagged_fields_spec(fields.drop_last()),
            fields.last().code,
            FieldValueView::Decimal(fields.last().value),
        )
    }
}

/// The full field mapping of one measurement: the tagged fields, then the
/// three derived figures.
pub open spec fn build_spec(
    fields: Seq<RecordView>,
    production: int,
    usage: int,
    lifetime_usage: int,
) -> Seq<(Seq<char>, FieldValueView)> {
    put_spec(
        put_spec(
            put_spec(tagged_fields_spec(fields), "production"@, FieldValueView::Integer(production)),
            "usage"@,
            FieldValueView::Integer(usage),
        ),
        "lifetime_usage"@,
        FieldValueView::Integer(lifetime_usage),
    )
}

/// A field name must be non-empty to enter a measurement.
pub open spec fn valid_field_names(fields: Seq<RecordView>) -> bool {
    forall|i: int| 0 <= i < fields.len() ==> (#[trigger] fields[i]).code.len() > 0
}

/// Builds the measurement of one extraction pass: every extracted field
/// under its code, plus the derived `production`, `usage` and
/// `lifetime_usage` figures; an empty code abandons the pass.
pub fn build_measurement(
    fields: &Vec<EnergyRecord>,
    production: i64,
    usage: i64,
    lifetime_usage: i64,
) -> (r: Result<Measurement, PassError>)
    ensures
        match r {
            Ok(m) => valid_field_names(views_of(fields@)) && m@.name == "energy"@ && m@.fields
                == build_spec(
                views_of(fields@),
                production as int,
                usage as int,
                lifetime_usage as int,
            ),
            Err(e) => e == PassError::MeasurementBuildError && !valid_field_names(
                views_of(fields@),
            ),
        },
{
    let ghost all: Seq<RecordView> = views_of(fields@);
    let mut out: Vec<(String, FieldValue)> = Vec::new();
    let mut i: usize = 0;
    proof {
        assert(all.take(0) =~= Seq::<RecordView>::empty());
        assert(pairs_view(out@) =~= Seq::<(Seq<char>, FieldValueView)>::empty());
    }
    while i < fields.len()
        invariant
            i <= fields@.len(),
            all == views_of(fields@),
            pairs_view(out@) == tagged_fields_spec(all.take(i as int)),
            valid_field_names(all.take(i as int)),
        decreases fields@.len() - i,
    {
        proof {
            assert(all[i as int] == fields@[i as int]@);
            assert(all.take(i as int + 1).drop_last() =~= all.take(i as int));
            assert(all.take(i as int + 1).last() == all[i as int]);
        }
        let rec = &fields[i];
        if rec.obis_code.unicode_len() == 0 {
            proof {
                assert(all[i as int].code.len() == 0);
            }
            return Err(PassError::MeasurementBuildError);
        }
        put_field(&mut out, rec.obis_code.clone(), FieldValue::Decimal(rec.value.clone()));
        i = i + 1;
    }
    proof {
        assert(all.take(fields@.len() as int) =~= all);
    }
    put_field(&mut out, String::from_str("production"), FieldValue::Integer(production));
    put_field(&mut out, String::from_str("usage"), FieldValue::Integer(usage));
    put_field(&mut out, String::from_str("lifetime_usage"), FieldValue::Integer(lifetime_usage));
    Ok(Measurement { name: String::from_str("energy"), fields: out })
}

} // verus!
