use electricity::extract::extract_fields;
use electricity::measurement::{build_measurement, FieldValue, Measurement};
use electricity::numeric::milliunits;
use electricity::pipeline::extraction_pass;
use electricity::record::EnergyRecord;
use electricity::registers::{
    decode_lifetime_registers, decode_power_registers, instantaneous_watts, lifetime_value,
    ScaledRegisterValue,
};
use electricity::usage::{accumulate_totals, compute_lifetime_usage, compute_usage};
use electricity::PassError;

fn field_of(m: &Measurement, name: &str) -> FieldValue {
    for (n, v) in m.fields.iter() {
        if n == name {
            return v.clone();
        }
    }
    panic!("field not found");
}

#[test]
fn milliunits_converts_kilowatts_to_watts() {
    assert_eq!(milliunits("0.512").unwrap(), 512);
    assert_eq!(milliunits("0.000").unwrap(), 0);
    assert_eq!(milliunits("1").unwrap(), 1000);
    assert_eq!(milliunits("12.3456").unwrap(), 12345);
    assert_eq!(milliunits("+2.5").unwrap(), 2500);
    assert_eq!(milliunits(".5").unwrap(), 500);
    assert_eq!(milliunits("3.").unwrap(), 3000);
}

#[test]
fn milliunits_floors_toward_negative_infinity() {
    assert_eq!(milliunits("-1.2345").unwrap(), -1235);
    assert_eq!(milliunits("-1.234").unwrap(), -1234);
    assert_eq!(milliunits("-0.0001").unwrap(), -1);
}

#[test]
fn milliunits_rejects_non_literals() {
    assert_eq!(milliunits("").unwrap_err(), PassError::NumericParseError);
    assert_eq!(milliunits("abc").unwrap_err(), PassError::NumericParseError);
    assert_eq!(milliunits("1.2.3").unwrap_err(), PassError::NumericParseError);
    assert_eq!(milliunits("-").unwrap_err(), PassError::NumericParseError);
    assert_eq!(milliunits(".").unwrap_err(), PassError::NumericParseError);
}

#[test]
fn telegram_fields_become_import_and_export() {
    let fields = extract_fields("1-0:1.7.0(0.512*kW)1-0:2.7.0(0.000*kW)");
    let totals = accumulate_totals(&fields).unwrap();
    assert_eq!(totals.import, 512);
    assert_eq!(totals.export, 0);
    assert_eq!(totals.imported_lifetime, 0);
    assert_eq!(totals.exported_lifetime, 0);
}

#[test]
fn repeated_code_keeps_last_occurrence() {
    let fields = extract_fields("1-0:1.7.0(0.100*kW)1-0:1.7.0(0.250*kW)");
    let totals = accumulate_totals(&fields).unwrap();
    assert_eq!(totals.import, 250);
}

#[test]
fn production_decode_truncates() {
    let v = ScaledRegisterValue { raw: 1500, scale: -1 };
    assert_eq!(instantaneous_watts(&v), 150);
    let w = ScaledRegisterValue { raw: 1500, scale: -2 };
    assert_eq!(instantaneous_watts(&w), 15);
    let x = ScaledRegisterValue { raw: 123, scale: 1 };
    assert_eq!(instantaneous_watts(&x), 1230);
}

#[test]
fn usage_case_split_in_fixed_order() {
    assert_eq!(compute_usage(512, 0, 150), 662);
    assert_eq!(compute_usage(0, 300, 150), -150);
    assert_eq!(compute_usage(100, 50, 150), 200);
}

#[test]
fn lifetime_decode_floors_scale_term_first() {
    let regs: Vec<u16> = vec![1, 0];
    let scale: Vec<u16> = vec![65534];
    let v = decode_lifetime_registers(&regs, &scale);
    assert_eq!(v.raw, 65536);
    assert_eq!(v.scale, -2);
    assert_eq!(lifetime_value(&v), 0);
}

#[test]
fn lifetime_decode_with_nonnegative_scale() {
    let regs: Vec<u16> = vec![0, 2500];
    let scale: Vec<u16> = vec![1];
    let v = decode_lifetime_registers(&regs, &scale);
    assert_eq!(v.raw, 2500);
    assert_eq!(v.scale, 1);
    assert_eq!(lifetime_value(&v), 25000);
}

#[test]
fn power_registers_split_magnitude_and_scale() {
    let regs: Vec<u16> = vec![1500, 65535];
    let v = decode_power_registers(&regs);
    assert_eq!(v.raw, 1500);
    assert_eq!(v.scale, -1);
}

#[test]
fn lifetime_usage_sums_counters() {
    assert_eq!(compute_lifetime_usage(1000, 200, 300), 900);
}

#[test]
fn extraction_pass_builds_full_measurement() {
    let text = "/hdr\r\n1-0:1.7.0(0.512*kW)\r\n1-0:2.7.0(0.000*kW)\r\n";
    let power = ScaledRegisterValue { raw: 1500, scale: -1 };
    let lifetime = ScaledRegisterValue { raw: 2500, scale: 0 };
    let m = extraction_pass(text, &power, &lifetime).unwrap();
    assert_eq!(m.name, "energy");
    assert_eq!(field_of(&m, "1.7.0"), FieldValue::Decimal(String::from("0.512")));
    assert_eq!(field_of(&m, "2.7.0"), FieldValue::Decimal(String::from("0.000")));
    assert_eq!(field_of(&m, "production"), FieldValue::Integer(150));
    assert_eq!(field_of(&m, "usage"), FieldValue::Integer(662));
    assert_eq!(field_of(&m, "lifetime_usage"), FieldValue::Integer(2500));
}

#[test]
fn extraction_pass_is_idempotent() {
    let text = "/hdr\r\n1-0:1.7.0(0.512*kW)\r\n1-0:1.8.0(12.5*kWh)\r\n";
    let power = ScaledRegisterValue { raw: 42, scale: 0 };
    let lifetime = ScaledRegisterValue { raw: 7, scale: 2 };
    let first = extraction_pass(text, &power, &lifetime).unwrap();
    let second = extraction_pass(text, &power, &lifetime).unwrap();
    assert_eq!(first, second);
}

#[test]
fn extraction_pass_fails_on_bad_numeric_value() {
    let text = "1-0:9.9.9(abc*kW)";
    let power = ScaledRegisterValue { raw: 0, scale: 0 };
    let lifetime = ScaledRegisterValue { raw: 0, scale: 0 };
    let err = extraction_pass(text, &power, &lifetime).unwrap_err();
    assert_eq!(err, PassError::NumericParseError);
}

#[test]
fn empty_buffer_pass_reports_bare_figures() {
    let power = ScaledRegisterValue { raw: 250, scale: 0 };
    let lifetime = ScaledRegisterValue { raw: 9, scale: 0 };
    let m = extraction_pass("", &power, &lifetime).unwrap();
    assert_eq!(m.fields.len(), 3);
    assert_eq!(field_of(&m, "production"), FieldValue::Integer(250));
    assert_eq!(field_of(&m, "usage"), FieldValue::Integer(250));
    assert_eq!(field_of(&m, "lifetime_usage"), FieldValue::Integer(9));
}

#[test]
fn empty_field_name_abandons_measurement() {
    let fields = vec![EnergyRecord {
        obis_code: String::new(),
        value: String::from("1"),
        unit: String::from("kW"),
    }];
    let err = build_measurement(&fields, 0, 0, 0).unwrap_err();
    assert_eq!(err, PassError::MeasurementBuildError);
}

#[test]
fn measurement_field_overwrites_repeated_code() {
    let text = "1-0:1.7.0(0.100*kW)1-0:1.7.0(0.250*kW)";
    let power = ScaledRegisterValue { raw: 0, scale: 0 };
    let lifetime = ScaledRegisterValue { raw: 0, scale: 0 };
    let m = extraction_pass(text, &power, &lifetime).unwrap();
    assert_eq!(field_of(&m, "1.7.0"), FieldValue::Decimal(String::from("0.250")));
    let names: Vec<&String> = m.fields.iter().map(|p| &p.0).collect();
    assert_eq!(names.iter().filter(|n| n.as_str() == "1.7.0").count(), 1);
}
