//! The card-record decoder on concrete buffers.

use tw_nhi_icc_service::card::{NHICardBasic, Sex};

/// A well-formed 57-byte raw record: serial `000000000001`, an ASCII name
/// zero-padded to 20 bytes, ID `A123456789`, birth date Minguo 112-05-20,
/// sex `M`, issue date Minguo 101-01-01.
fn valid_buffer() -> Vec<u8> {
    let mut data = Vec::new();
    data.extend_from_slice(b"000000000001");
    let mut name = [0u8; 20];
    name[..4].copy_from_slice(b"WANG");
    data.extend_from_slice(&name);
    data.extend_from_slice(b"A123456789");
    data.extend_from_slice(b"1120520");
    data.push(b'M');
    data.extend_from_slice(b"1010101");
    assert_eq!(data.len(), 57);
    data
}

#[test]
fn decodes_valid_buffer() {
    let data = valid_buffer();
    let card = NHICardBasic::from_raw(&data).unwrap();
    assert_eq!(card.reader_name, None);
    assert_eq!(card.card_no, "000000000001");
    assert_eq!(card.full_name, "WANG");
    assert_eq!(card.id_no, "A123456789");
    assert_eq!(card.birth_date.year, 2023);
    assert_eq!(card.birth_date.month, 5);
    assert_eq!(card.birth_date.day, 20);
    assert!(matches!(card.sex, Sex::Male));
    assert_eq!(card.issue_date.year, 2012);
    assert_eq!(card.issue_date.month, 1);
    assert_eq!(card.issue_date.day, 1);
}

#[test]
fn minguo_year_offsets_by_1911() {
    // Minguo 112-05-20 is the civil date 2023-05-20.
    let data = valid_buffer();
    let card = NHICardBasic::from_raw(&data).unwrap();
    assert_eq!(card.birth_date.to_iso_string(), "2023-05-20");
}

#[test]
fn short_buffers_fail() {
    for len in 0..57 {
        let data = vec![b'0'; len];
        assert!(NHICardBasic::from_raw(&data).is_err());
    }
}

#[test]
fn exactly_56_bytes_fails() {
    let mut data = valid_buffer();
    data.pop();
    assert_eq!(data.len(), 56);
    assert!(NHICardBasic::from_raw(&data).is_err());
}

#[test]
fn unknown_sex_marker_fails() {
    let mut data = valid_buffer();
    data[49] = b'X';
    assert!(NHICardBasic::from_raw(&data).is_err());
    data[49] = 0;
    assert!(NHICardBasic::from_raw(&data).is_err());
    data[49] = b'F';
    let card = NHICardBasic::from_raw(&data).unwrap();
    assert!(matches!(card.sex, Sex::Female));
}

#[test]
fn invalid_calendar_dates_fail() {
    // Minguo 112-02-30: February has no thirtieth day.
    let mut data = valid_buffer();
    data[42..49].copy_from_slice(b"1120230");
    assert!(NHICardBasic::from_raw(&data).is_err());
    // Month 13 never exists.
    data[42..49].copy_from_slice(b"1121301");
    assert!(NHICardBasic::from_raw(&data).is_err());
    // Minguo 113 (2024) is a leap year: February 29 decodes.
    data[42..49].copy_from_slice(b"1130229");
    let card = NHICardBasic::from_raw(&data).unwrap();
    assert_eq!(card.birth_date.to_iso_string(), "2024-02-29");
    // Minguo 112 (2023) is not.
    data[42..49].copy_from_slice(b"1120229");
    assert!(NHICardBasic::from_raw(&data).is_err());
}

#[test]
fn non_digit_in_date_window_fails() {
    let mut data = valid_buffer();
    data[48] = b'x';
    assert!(NHICardBasic::from_raw(&data).is_err());
    let mut data = valid_buffer();
    data[50] = b' ';
    assert!(NHICardBasic::from_raw(&data).is_err());
}

#[test]
fn name_stops_at_first_zero_byte() {
    let mut data = valid_buffer();
    let mut name = [0u8; 20];
    name[..2].copy_from_slice(b"AB");
    // Bytes after the terminator are ignored even if non-zero.
    name[3] = b'Z';
    data[12..32].copy_from_slice(&name);
    let card = NHICardBasic::from_raw(&data).unwrap();
    assert_eq!(card.full_name, "AB");
}

#[test]
fn unterminated_name_takes_whole_window() {
    let mut data = valid_buffer();
    data[12..32].copy_from_slice(b"ABCDEFGHIJKLMNOPQRST");
    let card = NHICardBasic::from_raw(&data).unwrap();
    assert_eq!(card.full_name, "ABCDEFGHIJKLMNOPQRST");
}

#[test]
fn empty_name_window_decodes_to_empty_name() {
    let mut data = valid_buffer();
    data[12..32].copy_from_slice(&[0u8; 20]);
    let card = NHICardBasic::from_raw(&data).unwrap();
    assert_eq!(card.full_name, "");
}

#[test]
fn big5_two_byte_character_is_decoded() {
    // 0xA4 0x40 is the Big5 encoding of U+4E00; the decoder must map the
    // bytes, not pass them through.
    let mut data = valid_buffer();
    let mut name = [0u8; 20];
    name[0] = 0xA4;
    name[1] = 0x40;
    data[12..32].copy_from_slice(&name);
    let card = NHICardBasic::from_raw(&data).unwrap();
    assert_eq!(card.full_name, "\u{4E00}");
}

#[test]
fn malformed_big5_fails() {
    // 0xA4 at the end of the window starts a double-byte sequence that the
    // zero terminator cuts short.
    let mut data = valid_buffer();
    let mut name = [0u8; 20];
    name[0] = 0xA4;
    data[12..32].copy_from_slice(&name);
    assert!(NHICardBasic::from_raw(&data).is_err());
}

#[test]
fn non_ascii_serial_fails() {
    let mut data = valid_buffer();
    data[0] = 0xA4;
    assert!(NHICardBasic::from_raw(&data).is_err());
}

#[test]
fn non_ascii_id_fails() {
    let mut data = valid_buffer();
    data[33] = 0xFF;
    assert!(NHICardBasic::from_raw(&data).is_err());
}

#[test]
fn longer_buffers_ignore_the_tail() {
    let mut data = valid_buffer();
    data.extend_from_slice(b"trailing bytes here");
    let card = NHICardBasic::from_raw(&data).unwrap();
    assert_eq!(card.card_no, "000000000001");
}

#[test]
fn sex_as_str() {
    assert_eq!(Sex::Male.as_str(), "M");
    assert_eq!(Sex::Female.as_str(), "F");
}
