use nrf52_radio_rs::adapter::{adapt, encode, parse, PAYLOAD_LEN};
use nrf52_radio_rs::decoder::{decode, Record, TimeDatum};

const DATUM: TimeDatum =
    TimeDatum { year: 2023, month: 7, day: 4, hours: 20, minutes: 15, seconds: 30 };

#[test]
fn time_datum_payload_bytes() {
    assert_eq!(encode(&DATUM), [0x07, 0xE7, 0x07, 0x04, 0x14, 0x0F, 0x1E, 0x00, 0x00, 0x00]);
}

#[test]
fn sentence_to_payload() {
    let record = decode(b"$GPZDA,201530.00,04,07,2023,00,00*63\r\n").unwrap();
    assert_eq!(record, Record::TimeDatum(DATUM));
    assert_eq!(
        adapt(&record),
        Some([0x07, 0xE7, 0x07, 0x04, 0x14, 0x0F, 0x1E, 0x00, 0x00, 0x00])
    );
}

#[test]
fn payload_round_trip() {
    let bytes = encode(&DATUM);
    assert_eq!(bytes.len(), PAYLOAD_LEN);
    assert_eq!(&bytes[7..], &[0, 0, 0]);
    assert_eq!(parse(&bytes), Some(DATUM));
}

#[test]
fn payload_round_trip_at_the_edges() {
    let first = TimeDatum { year: 0, month: 1, day: 1, hours: 0, minutes: 0, seconds: 0 };
    let last = TimeDatum { year: 65535, month: 12, day: 31, hours: 23, minutes: 59, seconds: 59 };
    assert_eq!(encode(&first), [0, 0, 1, 1, 0, 0, 0, 0, 0, 0]);
    assert_eq!(encode(&last), [0xff, 0xff, 12, 31, 23, 59, 59, 0, 0, 0]);
    assert_eq!(parse(&encode(&first)), Some(first));
    assert_eq!(parse(&encode(&last)), Some(last));
    let year_256 = TimeDatum { year: 256, month: 1, day: 1, hours: 0, minutes: 0, seconds: 0 };
    assert_eq!(encode(&year_256), [1, 0, 1, 1, 0, 0, 0, 0, 0, 0]);
}

#[test]
fn other_records_are_skipped() {
    assert_eq!(adapt(&Record::PositionFix), None);
    assert_eq!(adapt(&Record::Other), None);
}

#[test]
fn parse_rejects_wrong_width() {
    assert_eq!(parse(&[0x07, 0xE7, 7, 4, 20, 15, 30, 0, 0]), None);
    assert_eq!(parse(&[0x07, 0xE7, 7, 4, 20, 15, 30, 0, 0, 0, 0]), None);
    assert_eq!(parse(&[]), None);
}

#[test]
fn parse_rejects_reserved_bytes_that_are_set() {
    assert_eq!(parse(&[0x07, 0xE7, 7, 4, 20, 15, 30, 1, 0, 0]), None);
    assert_eq!(parse(&[0x07, 0xE7, 7, 4, 20, 15, 30, 0, 1, 0]), None);
    assert_eq!(parse(&[0x07, 0xE7, 7, 4, 20, 15, 30, 0, 0, 1]), None);
}
