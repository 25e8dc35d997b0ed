//! Sentence decoder: turns one framed sentence into a typed record, or says
//! why the sentence is rejected.

use chrono::Timelike;
use nmea::ParseResult;
use vstd::prelude::*;

verus! {

/// Why the sentence parser gave no data for a sentence.
#[derive(Clone, Copy, Debug, PartialEq, Eq)]
pub enum ParseFailure {
    /// The bytes are not ASCII text.
    NotText,
    /// The checksum in the sentence differs from the one computed over it.
    Checksum,
    /// Any other failure: the header or a field could not be read.
    Malformed,
}

/// What the sentence parser reports for one sentence, as plain values.
#[derive(Clone, Copy, Debug, PartialEq, Eq)]
pub enum Parsed {
    /// A time-and-date sentence; a blank field is `None`. The time is
    /// (hours, minutes, seconds).
    TimeDate { time: Option<(u32, u32, u32)>, day: Option<u8>, month: Option<u8>, year: Option<u16> },
    /// A position-fix sentence.
    PositionFix,
    /// A sentence of another kind that the parser decodes.
    OtherKind,
    /// A sentence whose kind the parser knows by name only.
    Unsupported,
    /// The parser failed.
    Failed(ParseFailure),
}

/// The value that `nmea::parse_bytes` gives for a sentence, recast as [`Parsed`].
pub uninterp spec fn sentence_parse(frame: Seq<u8>) -> Parsed;

/// Every byte is an ASCII character.
pub open spec fn is_ascii(frame: Seq<u8>) -> bool {
    forall|i: int| 0 <= i < frame.len() ==> frame[i] < 0x80
}

/// Calls `nmea::parse_bytes` and recasts what it returns as plain values.
///
/// The parser is a pure function of the bytes, so its result has a name.
/// One thing more is claimed of it: it refuses bytes as not being text, before
/// it looks at anything else, exactly where one of them is not ASCII.
#[verifier::external_body]
fn parse_sentence(frame: &[u8]) -> (parsed: Parsed)
    ensures
        parsed == sentence_parse(frame@),
        parsed == Parsed::Failed(ParseFailure::NotText) <==> !is_ascii(frame@),
{
    match nmea::parse_bytes(frame) {
        Ok(ParseResult::ZDA(z)) => Parsed::TimeDate {
            time: z.utc_time.map(|t| (t.hour(), t.minute(), t.second())),
            day: z.day, month: z.month, year: z.year,
        },
        Ok(ParseResult::GGA(_)) => Parsed::PositionFix,
        Ok(ParseResult::Unsupported(_)) => Parsed::Unsupported,
        Ok(_) => Parsed::OtherKind,
        Err(nmea::Error::Utf8Decoding) => Parsed::Failed(ParseFailure::NotText),
        Err(nmea::Error::ASCII) => Parsed::Failed(ParseFailure::NotText),
        Err(nmea::Error::ChecksumMismatch { .. }) => Parsed::Failed(ParseFailure::Checksum),
        Err(_) => Parsed::Failed(ParseFailure::Malformed),
    }
}

/// A calendar date and time of day.
#[derive(Clone, Copy, Debug, PartialEq, Eq)]
pub struct TimeDatum {
    pub year: u16,
    pub month: u8,
    pub day: u8,
    pub hours: u8,
    pub minutes: u8,
    pub seconds: u8,
}

impl TimeDatum {
    /// Month, day and time of day lie in their calendar ranges.
    pub open spec fn valid(self) -> bool {
        &&& 1 <= self.month <= 12
        &&& 1 <= self.day <= 31
        &&& self.hours < 24
        &&& self.minutes < 60
        &&& self.seconds < 60
    }
}

/// A decoded sentence.
#[derive(Clone, Copy, Debug, PartialEq, Eq)]
pub enum Record {
    /// Date and time, every field present and in range.
    TimeDatum(TimeDatum),
    /// A position fix; its fields are not carried.
    PositionFix,
    /// A well-formed sentence of a kind that is decoded and then ignored.
    Other,
}

/// Why a sentence yields no record.
#[derive(Clone, Copy, Debug, PartialEq, Eq)]
pub enum RejectReason {
    /// The bytes are not ASCII text.
    NotText,
    /// The sentence does not start with `$`, two talker letters and three kind letters.
    BadHeader,
    /// The checksum does not match.
    ChecksumMismatch,
    /// The kind is not one that this decoder recognizes.
    UnrecognizedType,
    /// The kind is recognized, but a field is missing, unreadable or out of range.
    BadFields,
}

/// The three letters name a sentence kind that the decoder recognizes.
pub open spec fn known_kind(a: u8, b: u8, c: u8) -> bool {
    ||| (a == 0x41 && b == 0x41 && c == 0x4d)  // AAM
    ||| (a == 0x41 && b == 0x4c && c == 0x4d)  // ALM
    ||| (a == 0x41 && b == 0x50 && c == 0x41)  // APA
    ||| (a == 0x42 && b == 0x4f && c == 0x44)  // BOD
    ||| (a == 0x42 && b == 0x57 && c == 0x43)  // BWC
    ||| (a == 0x42 && b == 0x57 && c == 0x57)  // BWW
    ||| (a == 0x44 && b == 0x42 && c == 0x4b)  // DBK
    ||| (a == 0x44 && b == 0x50 && c == 0x54)  // DPT
    ||| (a == 0x47 && b == 0x42 && c == 0x53)  // GBS
    ||| (a == 0x47 && b == 0x47 && c == 0x41)  // GGA
    ||| (a == 0x47 && b == 0x4c && c == 0x4c)  // GLL
    ||| (a == 0x47 && b == 0x4e && c == 0x53)  // GNS
    ||| (a == 0x47 && b == 0x53 && c == 0x41)  // GSA
    ||| (a == 0x47 && b == 0x53 && c == 0x54)  // GST
    ||| (a == 0x47 && b == 0x53 && c == 0x56)  // GSV
    ||| (a == 0x48 && b == 0x44 && c == 0x54)  // HDT
    ||| (a == 0x4d && b == 0x44 && c == 0x41)  // MDA
    ||| (a == 0x4d && b == 0x54 && c == 0x57)  // MTW
    ||| (a == 0x4d && b == 0x57 && c == 0x56)  // MWV
    ||| (a == 0x52 && b == 0x4d && c == 0x43)  // RMC
    ||| (a == 0x52 && b == 0x4d && c == 0x5a)  // RMZ
    ||| (a == 0x54 && b == 0x54 && c == 0x4d)  // TTM
    ||| (a == 0x54 && b == 0x58 && c == 0x54)  // TXT
    ||| (a == 0x56 && b == 0x48 && c == 0x57)  // VHW
    ||| (a == 0x56 && b == 0x54 && c == 0x47)  // VTG
    ||| (a == 0x57 && b == 0x4e && c == 0x43)  // WNC
    ||| (a == 0x5a && b == 0x44 && c == 0x41)  // ZDA
    ||| (a == 0x5a && b == 0x46 && c == 0x4f)  // ZFO
    ||| (a == 0x5a && b == 0x54 && c == 0x47)  // ZTG
}

/// Tells whether three letters name a recognized sentence kind.
pub fn is_known_kind(a: u8, b: u8, c: u8) -> (known: bool)
    ensures
        known == known_kind(a, b, c),
{
       (a == 0x41 && b == 0x41 && c == 0x4d)  // AAM
    || (a == 0x41 && b == 0x4c && c == 0x4d)  // ALM
    || (a == 0x41 && b == 0x50 && c == 0x41)  // APA
    || (a == 0x42 && b == 0x4f && c == 0x44)  // BOD
    || (a == 0x42 && b == 0x57 && c == 0x43)  // BWC
    || (a == 0x42 && b == 0x57 && c == 0x57)  // BWW
    || (a == 0x44 && b == 0x42 && c == 0x4b)  // DBK
    || (a == 0x44 && b == 0x50 && c == 0x54)  // DPT
    || (a == 0x47 && b == 0x42 && c == 0x53)  // GBS
    || (a == 0x47 && b == 0x47 && c == 0x41)  // GGA
    || (a == 0x47 && b == 0x4c && c == 0x4c)  // GLL
    || (a == 0x47 && b == 0x4e && c == 0x53)  // GNS
    || (a == 0x47 && b == 0x53 && c == 0x41)  // GSA
    || (a == 0x47 && b == 0x53 && c == 0x54)  // GST
    || (a == 0x47 && b == 0x53 && c == 0x56)  // GSV
    || (a == 0x48 && b == 0x44 && c == 0x54)  // HDT
    || (a == 0x4d && b == 0x44 && c == 0x41)  // MDA
    || (a == 0x4d && b == 0x54 && c == 0x57)  // MTW
    || (a == 0x4d && b == 0x57 && c == 0x56)  // MWV
    || (a == 0x52 && b == 0x4d && c == 0x43)  // RMC
    || (a == 0x52 && b == 0x4d && c == 0x5a)  // RMZ
    || (a == 0x54 && b == 0x54 && c == 0x4d)  // TTM
    || (a == 0x54 && b == 0x58 && c == 0x54)  // TXT
    || (a == 0x56 && b == 0x48 && c == 0x57)  // VHW
    || (a == 0x56 && b == 0x54 && c == 0x47)  // VTG
    || (a == 0x57 && b == 0x4e && c == 0x43)  // WNC
    || (a == 0x5a && b == 0x44 && c == 0x41)  // ZDA
    || (a == 0x5a && b == 0x46 && c == 0x4f)  // ZFO
    || (a == 0x5a && b == 0x54 && c == 0x47)  // ZTG
}

/// The frame starts with `$` and has room for two talker letters and three
/// kind letters.
pub open spec fn has_header(frame: Seq<u8>) -> bool {
    frame.len() >= 6 && frame[0] == 0x24
}

/// The time and date of a time-and-date sentence, where every field is
/// present and in range.
pub open spec fn time_datum_of(
    time: Option<(u32, u32, u32)>,
    day: Option<u8>,
    month: Option<u8>,
    year: Option<u16>,
) -> Option<TimeDatum> {
    if time.is_some() && day.is_some() && month.is_some() && year.is_some()
        && time.unwrap().0 < 24 && time.unwrap().1 < 60 && time.unwrap().2 < 60
        && 1 <= day.unwrap() <= 31 && 1 <= month.unwrap() <= 12 {
        Some(
            TimeDatum {
                year: year.unwrap(),
                month: month.unwrap(),
                day: day.unwrap(),
                hours: time.unwrap().0 as u8,
                minutes: time.unwrap().1 as u8,
                seconds: time.unwrap().2 as u8,
            },
        )
    } else {
        None
    }
}

/// The record or rejection for a frame, given what the sentence parser
/// reported for it.
pub open spec fn classify_spec(frame: Seq<u8>, parsed: Parsed) -> Result<Record, RejectReason> {
    match parsed {
        Parsed::TimeDate { time, day, month, year } => match time_datum_of(time, day, month, year) {
            Some(t) => Ok(Record::TimeDatum(t)),
            None => Err(RejectReason::BadFields),
        },
        Parsed::PositionFix => Ok(Record::PositionFix),
        Parsed::OtherKind => Ok(Record::Other),
        Parsed::Unsupported => Err(RejectReason::UnrecognizedType),
        Parsed::Failed(ParseFailure::NotText) => Err(RejectReason::NotText),
        Parsed::Failed(ParseFailure::Checksum) => Err(RejectReason::ChecksumMismatch),
        Parsed::Failed(ParseFailure::Malformed) => if !has_header(frame) {
            Err(RejectReason::BadHeader)
        } else if known_kind(frame[3], frame[4], frame[5]) {
            Err(RejectReason::BadFields)
        } else {
            Err(RejectReason::UnrecognizedType)
        },
    }
}

/// What decoding a frame yields.
pub open spec fn decode_spec(frame: Seq<u8>) -> Result<Record, RejectReason> {
    classify_spec(frame, sentence_parse(frame))
}

/// Checks the fields of a time-and-date sentence and narrows them to a
/// [`TimeDatum`]; `None` where a field is blank or out of range.
pub fn time_datum(
    time: Option<(u32, u32, u32)>,
    day: Option<u8>,
    month: Option<u8>,
    year: Option<u16>,
) -> (datum: Option<TimeDatum>)
    ensures
        datum == time_datum_of(time, day, month, year),
        datum.is_some() ==> datum.unwrap().valid(),
{
    match (time, day, month, year) {
        (Some((h, m, s)), Some(day), Some(month), Some(year)) => {
            if h < 24 && m < 60 && s < 60 && 1 <= day && day <= 31 && 1 <= month && month <= 12 {
                Some(
                    TimeDatum {
                        year,
                        month,
                        day,
                        hours: h as u8,
                        minutes: m as u8,
                        seconds: s as u8,
                    },
                )
            } else {
                None
            }
        },
        _ => None,
    }
}

/// Maps the parser's report for a frame to a record or a rejection.
///
/// A parser failure is told apart by the frame itself: without a header it is
/// a bad header, with the letters of a recognized kind it is bad fields, and
/// otherwise the kind is unrecognized.
pub fn classify(frame: &[u8], parsed: Parsed) -> (outcome: Result<Record, RejectReason>)
    ensures
        outcome == classify_spec(frame@, parsed),
        outcome matches Ok(Record::TimeDatum(t)) ==> t.valid(),
{
    match parsed {
        Parsed::TimeDate { time, day, month, year } => match time_datum(time, day, month, year) {
            Some(t) => Ok(Record::TimeDatum(t)),
            None => Err(RejectReason::BadFields),
        },
        Parsed::PositionFix => Ok(Record::PositionFix),
        Parsed::OtherKind => Ok(Record::Other),
        Parsed::Unsupported => Err(RejectReason::UnrecognizedType),
        Parsed::Failed(ParseFailure::NotText) => Err(RejectReason::NotText),
        Parsed::Failed(ParseFailure::Checksum) => Err(RejectReason::ChecksumMismatch),
        Parsed::Failed(ParseFailure::Malformed) => {
            if frame.len() < 6 || frame[0] != 0x24 {
                Err(RejectReason::BadHeader)
            } else if is_known_kind(frame[3], frame[4], frame[5]) {
                Err(RejectReason::BadFields)
            } else {
                Err(RejectReason::UnrecognizedType)
            }
        },
    }
}

/// Decodes one frame: parses the sentence and classifies the outcome. A
/// rejected frame is reported and nothing else happens.
pub fn decode(frame: &[u8]) -> (outcome: Result<Record, RejectReason>)
    ensures
        outcome == decode_spec(frame@),
        outcome matches Ok(Record::TimeDatum(t)) ==> t.valid(),
        outcome == Err::<Record, RejectReason>(RejectReason::NotText) <==> !is_ascii(frame@),
{
    let parsed = parse_sentence(frame);
    classify(frame, parsed)
}

/// Decoding keeps no state: equal frames decode to equal outcomes, however
/// often and in whatever order they are decoded.
pub proof fn lemma_decode_repeatable(first: Seq<u8>, second: Seq<u8>)
    requires
        first == second,
    ensures
        decode_spec(first) == decode_spec(second),
{
}

}
