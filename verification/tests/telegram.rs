use electricity::assembler::{ChunkAction, ChunkEvent, TelegramAssembler};
use electricity::extract::extract_fields;
use electricity::record::{EnergyRecord, EnergyRecordError};

#[test]
fn buffer_is_concatenation_since_last_marker() {
    let mut assembler = TelegramAssembler::new();
    assembler.process_chunk("/ISK5 header");
    assembler.process_chunk("1-0:1.7.0(0.512*kW)");
    assembler.process_chunk("tail");
    assert_eq!(assembler.text(), "/ISK5 header1-0:1.7.0(0.512*kW)tail");
}

#[test]
fn start_marker_discards_prior_content() {
    let mut assembler = TelegramAssembler::new();
    assembler.process_chunk("/first");
    assembler.process_chunk("body");
    assembler.process_chunk("/second");
    assembler.process_chunk("d");
    assert_eq!(assembler.text(), "/secondd");
}

#[test]
fn chunk_without_marker_extends_empty_buffer() {
    let mut assembler = TelegramAssembler::new();
    assembler.process_chunk("mid-telegram data");
    assert_eq!(assembler.text(), "mid-telegram data");
}

#[test]
fn crlf_pairs_are_removed_for_extraction() {
    let mut assembler = TelegramAssembler::new();
    assembler.process_chunk("/head\r\n1-0:1.7.0(0.512*kW)\r\n");
    assert_eq!(assembler.extraction_text(), "/head1-0:1.7.0(0.512*kW)");
}

#[test]
fn lone_carriage_return_stays() {
    let mut assembler = TelegramAssembler::new();
    assembler.process_chunk("a\rb\r\r\nc");
    assert_eq!(assembler.extraction_text(), "a\rb\rc");
}

#[test]
fn closed_event_ends_cycle_and_keeps_buffer() {
    let mut assembler = TelegramAssembler::new();
    assembler.process_chunk("/partial telegram");
    let action = assembler.handle_event(ChunkEvent::Closed);
    assert_eq!(action, ChunkAction::EndCycle);
    assert_eq!(assembler.text(), "/partial telegram");
}

#[test]
fn undecodable_event_skips_chunk() {
    let mut assembler = TelegramAssembler::new();
    assembler.process_chunk("/partial");
    let action = assembler.handle_event(ChunkEvent::Undecodable);
    assert_eq!(action, ChunkAction::SkipChunk);
    assert_eq!(assembler.text(), "/partial");
}

#[test]
fn text_event_assembles_and_requests_pass() {
    let mut assembler = TelegramAssembler::new();
    let action = assembler.handle_event(ChunkEvent::Text(String::from("/t")));
    assert_eq!(action, ChunkAction::RunPass);
    assert_eq!(assembler.text(), "/t");
}

#[test]
fn extraction_finds_fields_in_order() {
    let fields = extract_fields("/x\n1-0:1.7.0(0.512*kW)\n1-0:2.7.0(0.000*kW)\n!");
    assert_eq!(fields.len(), 2);
    assert_eq!(fields[0].obis_code, "1.7.0");
    assert_eq!(fields[0].value, "0.512");
    assert_eq!(fields[0].unit, "kW");
    assert_eq!(fields[1].obis_code, "2.7.0");
    assert_eq!(fields[1].value, "0.000");
    assert_eq!(fields[1].unit, "kW");
}

#[test]
fn extraction_of_unmatched_text_is_empty() {
    assert_eq!(extract_fields("/ISK5 nothing tagged here").len(), 0);
    assert_eq!(extract_fields("").len(), 0);
}

#[test]
fn extraction_requires_nonempty_pieces() {
    assert_eq!(extract_fields("1-0:(1*kW)").len(), 0);
    assert_eq!(extract_fields("1-0:1.7.0(*kW)").len(), 0);
    assert_eq!(extract_fields("1-0:1.7.0(1*)").len(), 0);
}

#[test]
fn extraction_skips_malformed_and_resumes() {
    let fields = extract_fields("1-0:bad(open*no close 1-0:1.8.0(1.5*kWh)");
    assert_eq!(fields.len(), 1);
    assert_eq!(fields[0].obis_code, "1.8.0");
    assert_eq!(fields[0].value, "1.5");
    assert_eq!(fields[0].unit, "kWh");
}

#[test]
fn reextraction_is_identical() {
    let text = "/x\r\n1-0:1.7.0(0.512*kW)\r\n1-0:2.7.0(0.000*kW)\r\n";
    let first = extract_fields(text);
    let second = extract_fields(text);
    assert_eq!(first, second);
}

#[test]
fn try_from_returns_first_field() {
    let rec = EnergyRecord::try_from(String::from("/x\n1-0:1.8.0(5.5*kWh)\n1-0:2.8.0(1*kWh)"))
        .unwrap();
    assert_eq!(rec.obis_code, "1.8.0");
    assert_eq!(rec.value, "5.5");
    assert_eq!(rec.unit, "kWh");
}

#[test]
fn try_from_fails_without_any_field() {
    let err = EnergyRecord::try_from(String::from("/x no tagged field")).unwrap_err();
    assert_eq!(err, EnergyRecordError::ParseError());
}
