//! Record adapter: the wire form of the current-time attribute.
//!
//! The payload is ten bytes: the year as two bytes, high byte first, then
//! month, day, hours, minutes and seconds, and three reserved bytes (day of
//! the week, a fraction of a second in 256ths, and the reason of an
//! adjustment) that are always zero.

use crate::decoder::{Record, TimeDatum};
use vstd::prelude::*;

verus! {

/// The width of the current-time payload.
pub const PAYLOAD_LEN: usize = 10;

/// The payload of a time datum.
pub open spec fn encode_spec(t: TimeDatum) -> Seq<u8> {
    seq![
        (t.year / 256) as u8,
        (t.year % 256) as u8,
        t.month,
        t.day,
        t.hours,
        t.minutes,
        t.seconds,
        0u8,
        0u8,
        0u8,
    ]
}

/// The time datum that a payload carries: the payload has the right width
/// and its reserved bytes are zero. The ranges of the fields are not judged.
pub open spec fn parse_spec(bytes: Seq<u8>) -> Option<TimeDatum> {
    if bytes.len() == PAYLOAD_LEN && bytes[7] == 0 && bytes[8] == 0 && bytes[9] == 0 {
        Some(
            TimeDatum {
                year: (bytes[0] * 256 + bytes[1]) as u16,
                month: bytes[2],
                day: bytes[3],
                hours: bytes[4],
                minutes: bytes[5],
                seconds: bytes[6],
            },
        )
    } else {
        None
    }
}

/// What a record gives to publish: the payload of a time datum, and nothing
/// for any other record.
pub open spec fn adapt_spec(record: Record) -> Option<Seq<u8>> {
    match record {
        Record::TimeDatum(t) => Some(encode_spec(t)),
        _ => None,
    }
}

/// Encodes a time datum as the ten-byte payload.
pub fn encode(t: &TimeDatum) -> (payload: [u8; 10])
    ensures
        payload@ == encode_spec(*t),
{
    let payload: [u8; 10] = [
        (t.year / 256) as u8,
        (t.year % 256) as u8,
        t.month,
        t.day,
        t.hours,
        t.minutes,
        t.seconds,
        0,
        0,
        0,
    ];
    assert(payload@ =~= encode_spec(*t));
    payload
}

/// Reads a payload back. `None` where the width is not ten bytes or a
/// reserved byte is not zero.
pub fn parse(bytes: &[u8]) -> (datum: Option<TimeDatum>)
    ensures
        datum == parse_spec(bytes@),
{
    if bytes.len() != PAYLOAD_LEN || bytes[7] != 0 || bytes[8] != 0 || bytes[9] != 0 {
        return None;
    }
    let high: u16 = bytes[0] as u16;
    let low: u16 = bytes[1] as u16;
    Some(
        TimeDatum {
            year: high * 256 + low,
            month: bytes[2],
            day: bytes[3],
            hours: bytes[4],
            minutes: bytes[5],
            seconds: bytes[6],
        },
    )
}

/// Converts a record to what is published for it: the payload of a time
/// datum, and `None` (nothing is sent) for a record of any other kind.
pub fn adapt(record: &Record) -> (payload: Option<[u8; 10]>)
    ensures
        match payload {
            Some(bytes) => adapt_spec(*record) == Some(bytes@),
            None => adapt_spec(*record).is_none(),
        },
{
    match record {
        Record::TimeDatum(t) => Some(encode(t)),
        _ => None,
    }
}

/// Reading an encoded time datum back gives the same year, month, day,
/// hours, minutes and seconds, for every value of the fields; the payload is
/// ten bytes wide and its three reserved bytes are zero.
pub proof fn lemma_encode_parse_round_trip(t: TimeDatum)
    ensures
        encode_spec(t).len() == PAYLOAD_LEN,
        encode_spec(t)[7] == 0 && encode_spec(t)[8] == 0 && encode_spec(t)[9] == 0,
        parse_spec(encode_spec(t)) == Some(t),
{
    let y = t.year;
    assert((y / 256) * 256 + y % 256 == y);
    assert(y / 256 < 256);
}

/// Encoding what a payload was read as gives the payload back.
pub proof fn lemma_parse_encode_round_trip(bytes: Seq<u8>)
    requires
        parse_spec(bytes).is_some(),
    ensures
        encode_spec(parse_spec(bytes).unwrap()) == bytes,
{
    let high = bytes[0];
    let low = bytes[1];
    let y = (high * 256 + low) as u16;
    assert(y == high * 256 + low);
    assert(y / 256 == high);
    assert(y % 256 == low);
    assert(encode_spec(parse_spec(bytes).unwrap()) =~= bytes);
}

}
