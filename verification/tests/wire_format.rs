//! The JSON wire format and the ISO date text on concrete values.

use tw_nhi_icc_service::card::NHICardBasic;
use tw_nhi_icc_service::date::Date;
use tw_nhi_icc_service::json::{record_to_json, snapshot_to_json, version_json};

fn sample_card() -> NHICardBasic {
    let mut data = Vec::new();
    data.extend_from_slice(b"000012345678");
    let mut name = [0u8; 20];
    name[..3].copy_from_slice(b"LIN");
    data.extend_from_slice(&name);
    data.extend_from_slice(b"A123456789");
    data.extend_from_slice(b"0990812");
    data.push(b'F');
    data.extend_from_slice(b"1101130");
    NHICardBasic::from_raw(&data).unwrap()
}

#[test]
fn date_new_validates() {
    assert!(Date::new(2023, 5, 20).is_some());
    assert!(Date::new(2023, 2, 29).is_none());
    assert!(Date::new(2024, 2, 29).is_some());
    assert!(Date::new(2000, 2, 29).is_some());
    assert!(Date::new(1900, 2, 29).is_none());
    assert!(Date::new(2023, 0, 1).is_none());
    assert!(Date::new(2023, 1, 0).is_none());
    assert!(Date::new(2023, 4, 31).is_none());
    assert!(Date::new(2023, 12, 31).is_some());
}

#[test]
fn iso_dates_are_zero_padded() {
    let d = Date::new(2010, 8, 12).unwrap();
    assert_eq!(d.to_iso_string(), "2010-08-12");
    let d = Date::new(1911, 1, 1).unwrap();
    assert_eq!(d.to_iso_string(), "1911-01-01");
}

#[test]
fn record_json_exact_text() {
    let card = sample_card();
    assert_eq!(
        record_to_json(&card),
        "{\"reader_name\":null,\"card_no\":\"000012345678\",\"full_name\":\"LIN\",\
         \"id_no\":\"A123456789\",\"birth_date\":\"2010-08-12\",\"sex\":\"F\",\
         \"issue_date\":\"2021-11-30\"}"
    );
}

#[test]
fn record_json_with_reader_name() {
    let mut card = sample_card();
    card.reader_name = Some(String::from("ACS ACR122U"));
    let json = record_to_json(&card);
    assert!(json.starts_with("{\"reader_name\":\"ACS ACR122U\","));
}

#[test]
fn empty_snapshot_is_empty_array() {
    let records: Vec<NHICardBasic> = Vec::new();
    assert_eq!(snapshot_to_json(&records), "[]");
}

#[test]
fn snapshot_joins_records_with_commas() {
    let one = vec![sample_card()];
    let json_one = snapshot_to_json(&one);
    assert!(json_one.starts_with('['));
    assert!(json_one.ends_with(']'));
    assert_eq!(&json_one[1..json_one.len() - 1], record_to_json(&sample_card()));

    let two = vec![sample_card(), sample_card()];
    let json_two = snapshot_to_json(&two);
    let piece = record_to_json(&sample_card());
    assert_eq!(json_two, format!("[{piece},{piece}]"));
}

#[test]
fn version_json_exact_text() {
    assert_eq!(
        version_json("1.2.3", 1, 2, 3, ""),
        "{\"text\":\"1.2.3\",\"major\":1,\"minor\":2,\"patch\":3,\"pre\":\"\"}"
    );
}

#[test]
fn non_ascii_names_pass_through_unescaped() {
    // A record whose name field holds the Big5 bytes 0xA4 0x40 (U+4E00).
    let mut data = Vec::new();
    data.extend_from_slice(b"000012345678");
    let mut name = [0u8; 20];
    name[0] = 0xA4;
    name[1] = 0x40;
    data.extend_from_slice(&name);
    data.extend_from_slice(b"A123456789");
    data.extend_from_slice(b"0990812");
    data.push(b'F');
    data.extend_from_slice(b"1101130");
    let card = NHICardBasic::from_raw(&data).unwrap();
    let json = record_to_json(&card);
    assert!(json.contains("\"full_name\":\"\u{4E00}\""));
}

#[test]
fn quotes_in_decoded_fields_are_escaped() {
    // A double quote is a valid ASCII byte inside the name window; it must
    // come out escaped in the JSON payload.
    let mut data = Vec::new();
    data.extend_from_slice(b"000012345678");
    let mut name = [0u8; 20];
    name[..3].copy_from_slice(b"A\"B");
    data.extend_from_slice(&name);
    data.extend_from_slice(b"A123456789");
    data.extend_from_slice(b"0990812");
    data.push(b'F');
    data.extend_from_slice(b"1101130");
    let card = NHICardBasic::from_raw(&data).unwrap();
    let json = record_to_json(&card);
    assert!(json.contains("\"full_name\":\"A\\\"B\""));
}

#[test]
fn json_strings_are_escaped() {
    let json = version_json("a\"b\\c", 0, 10, 255, "\n\t\u{1}");
    assert_eq!(
        json,
        "{\"text\":\"a\\\"b\\\\c\",\"major\":0,\"minor\":10,\"patch\":255,\
         \"pre\":\"\\n\\t\\u0001\"}"
    );
}
