use nrf52_radio_rs::decoder::{
    classify, decode, is_known_kind, time_datum, ParseFailure, Parsed, Record, RejectReason,
    TimeDatum,
};

const DATUM: TimeDatum =
    TimeDatum { year: 2023, month: 7, day: 4, hours: 20, minutes: 15, seconds: 30 };

#[test]
fn time_and_date_sentence_decodes() {
    let outcome = decode(b"$GPZDA,201530.00,04,07,2023,00,00*63\r\n");
    assert_eq!(outcome, Ok(Record::TimeDatum(DATUM)));
}

#[test]
fn time_and_date_sentence_without_terminator_decodes() {
    let outcome = decode(b"$GPZDA,160012.71,11,03,2004,-1,00*7D");
    assert_eq!(
        outcome,
        Ok(Record::TimeDatum(TimeDatum {
            year: 2004,
            month: 3,
            day: 11,
            hours: 16,
            minutes: 0,
            seconds: 12
        }))
    );
}

#[test]
fn wrong_checksum_is_rejected() {
    let outcome = decode(b"$GPZDA,201530.00,04,07,2023,00,00*6B\r\n");
    assert_eq!(outcome, Err(RejectReason::ChecksumMismatch));
}

#[test]
fn decoding_twice_gives_the_same() {
    let frame = b"$GPZDA,201530.00,04,07,2023,00,00*63\r\n";
    assert_eq!(decode(frame), decode(frame));
    let bad = b"$GPZDA,201530.00,04,07,2023,00,00*00\r\n";
    assert_eq!(decode(bad), decode(bad));
    assert_eq!(decode(frame), Ok(Record::TimeDatum(DATUM)));
}

#[test]
fn position_fix_decodes() {
    let outcome =
        decode(b"$GPGGA,092750.000,5321.6802,N,00630.3372,W,1,8,1.03,61.7,M,55.2,M,,*76\r\n");
    assert_eq!(outcome, Ok(Record::PositionFix));
}

#[test]
fn other_known_kind_is_recognized_and_ignored() {
    let outcome = decode(b"$GPRMC,225446.33,A,4916.45,N,12311.12,W,000.5,054.7,191194,020.3,E,A*2B\r\n");
    assert_eq!(outcome, Ok(Record::Other));
}

#[test]
fn unknown_kind_is_unrecognized() {
    assert_eq!(decode(b"$GPXXX,1,2*4C\r\n"), Err(RejectReason::UnrecognizedType));
}

#[test]
fn kind_known_by_name_only_is_unrecognized() {
    assert_eq!(decode(b"$GPABK,1*42\r\n"), Err(RejectReason::UnrecognizedType));
}

#[test]
fn recognized_kind_with_bad_fields() {
    assert_eq!(
        decode(b"$GPZDA,256012.71,11,03,2004,-1,00*7B\r\n"),
        Err(RejectReason::BadFields)
    );
    assert_eq!(decode(b"$GPGGA,bad*1D\r\n"), Err(RejectReason::BadFields));
}

#[test]
fn blank_time_and_date_fields_are_bad_fields() {
    assert_eq!(decode(b"$GPZDA,,,,,,*48\r\n"), Err(RejectReason::BadFields));
}

#[test]
fn missing_header_is_rejected() {
    assert_eq!(decode(b""), Err(RejectReason::BadHeader));
    assert_eq!(decode(b"GPZDA,201530.00,04,07,2023,00,00*63\r\n"), Err(RejectReason::BadHeader));
    assert_eq!(decode(b"$GP\r\n"), Err(RejectReason::BadHeader));
}

#[test]
fn bytes_that_are_not_text_are_rejected() {
    assert_eq!(decode(&[0x24, 0xff, 0xfe, 0x5a, 0x44, 0x41]), Err(RejectReason::NotText));
    assert_eq!(decode("$GPZDA,\u{e9}*00".as_bytes()), Err(RejectReason::NotText));
}

#[test]
fn classify_maps_each_report() {
    let frame = b"$GPZDA,1";
    assert_eq!(classify(frame, Parsed::PositionFix), Ok(Record::PositionFix));
    assert_eq!(classify(frame, Parsed::OtherKind), Ok(Record::Other));
    assert_eq!(classify(frame, Parsed::Unsupported), Err(RejectReason::UnrecognizedType));
    assert_eq!(
        classify(frame, Parsed::Failed(ParseFailure::NotText)),
        Err(RejectReason::NotText)
    );
    assert_eq!(
        classify(frame, Parsed::Failed(ParseFailure::Checksum)),
        Err(RejectReason::ChecksumMismatch)
    );
    assert_eq!(
        classify(frame, Parsed::Failed(ParseFailure::Malformed)),
        Err(RejectReason::BadFields)
    );
    assert_eq!(
        classify(b"$GPQQQ,1", Parsed::Failed(ParseFailure::Malformed)),
        Err(RejectReason::UnrecognizedType)
    );
    assert_eq!(
        classify(b"GPZDA,1", Parsed::Failed(ParseFailure::Malformed)),
        Err(RejectReason::BadHeader)
    );
    assert_eq!(
        classify(
            frame,
            Parsed::TimeDate { time: Some((20, 15, 30)), day: Some(4), month: Some(7), year: Some(2023) }
        ),
        Ok(Record::TimeDatum(DATUM))
    );
    assert_eq!(
        classify(
            frame,
            Parsed::TimeDate { time: None, day: Some(4), month: Some(7), year: Some(2023) }
        ),
        Err(RejectReason::BadFields)
    );
}

#[test]
fn time_datum_checks_every_range() {
    let ok = time_datum(Some((23, 59, 59)), Some(31), Some(12), Some(9999));
    assert_eq!(
        ok,
        Some(TimeDatum { year: 9999, month: 12, day: 31, hours: 23, minutes: 59, seconds: 59 })
    );
    assert_eq!(time_datum(Some((24, 0, 0)), Some(1), Some(1), Some(2000)), None);
    assert_eq!(time_datum(Some((0, 60, 0)), Some(1), Some(1), Some(2000)), None);
    assert_eq!(time_datum(Some((0, 0, 60)), Some(1), Some(1), Some(2000)), None);
    assert_eq!(time_datum(Some((0, 0, 0)), Some(0), Some(1), Some(2000)), None);
    assert_eq!(time_datum(Some((0, 0, 0)), Some(32), Some(1), Some(2000)), None);
    assert_eq!(time_datum(Some((0, 0, 0)), Some(1), Some(0), Some(2000)), None);
    assert_eq!(time_datum(Some((0, 0, 0)), Some(1), Some(13), Some(2000)), None);
    assert_eq!(time_datum(Some((0, 0, 0)), Some(1), Some(1), None), None);
    assert_eq!(time_datum(Some((0, 0, 0)), None, Some(1), Some(2000)), None);
    assert_eq!(time_datum(Some((0, 0, 0)), Some(1), None, Some(2000)), None);
}

#[test]
fn known_kinds() {
    assert!(is_known_kind(b'Z', b'D', b'A'));
    assert!(is_known_kind(b'G', b'G', b'A'));
    assert!(is_known_kind(b'R', b'M', b'Z'));
    assert!(!is_known_kind(b'D', b'B', b'S'));
    assert!(!is_known_kind(b'X', b'X', b'X'));
    assert!(!is_known_kind(b'z', b'd', b'a'));
}
