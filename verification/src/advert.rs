//! Advertising data: what the node broadcasts to be found, and the payload
//! of the liveness beacon.
//!
//! The data is a row of structures, each a length byte, a type byte and the
//! content. The bytes are laid down by the radio stack's encoder; what it
//! produces is stated here and the payloads are built on that.

use trouble_host::prelude::AdStructure;
use vstd::prelude::*;
use vstd::slice::slice_to_vec;

verus! {

/// The flags that the node advertises: it can be discovered by anyone at
/// any time (0x02), and it has no classic radio (0x04).
pub const FLAGS: u8 = 0x06;

/// The most bytes that connectable advertising data may have.
pub const DISCOVERY_CAPACITY: usize = 31;

/// The size of the buffer that the beacon's data is encoded into.
pub const BEACON_CAPACITY: usize = 64;

/// The longest name that fits beside the flags and one service identifier.
pub const MAX_NAME_LEN: usize = 22;

/// The company identifier of the beacon's vendor data: none in particular.
pub const COMPANY_ID: u16 = 0xffff;

/// Shortest advertising interval of the beacon, in milliseconds.
pub const INTERVAL_MIN_MS: u64 = 25;

/// Longest advertising interval of the beacon, in milliseconds.
pub const INTERVAL_MAX_MS: u64 = 150;

/// The beacon reports that it is alive once in this many updates.
pub const LOG_EVERY: u32 = 100;

/// One structure of advertising data.
#[derive(Debug, PartialEq, Eq)]
pub enum AdField {
    /// Capability flags.
    Flags(u8),
    /// The complete list of 16-bit service identifiers, each low byte first.
    ServiceUuids16(Vec<[u8; 2]>),
    /// The complete local name.
    LocalName(Vec<u8>),
    /// Vendor data under a company identifier.
    ManufacturerData { company: u16, payload: Vec<u8> },
}

/// The identifiers' bytes, one identifier after another.
pub open spec fn uuid_bytes(uuids: Seq<[u8; 2]>) -> Seq<u8> {
    Seq::new(2 * uuids.len(), |i: int| uuids[i / 2]@[i % 2])
}

/// The bytes of one structure: the length of what follows the length byte
/// (cut to a byte), the type, the content.
pub open spec fn field_bytes(field: AdField) -> Seq<u8> {
    match field {
        AdField::Flags(flags) => seq![2u8, 0x01u8, flags],
        AdField::ServiceUuids16(uuids) => seq![((uuids@.len() * 2 + 1) % 256) as u8, 0x03u8]
            + uuid_bytes(uuids@),
        AdField::LocalName(name) => seq![((name@.len() + 1) % 256) as u8, 0x09u8] + name@,
        AdField::ManufacturerData { company, payload } => seq![
            ((payload@.len() + 3) % 256) as u8,
            0xffu8,
            (company % 256) as u8,
            (company / 256) as u8,
        ] + payload@,
    }
}

/// The bytes of a row of structures.
pub open spec fn encoding(fields: Seq<AdField>) -> Seq<u8>
    decreases fields.len(),
{
    if fields.len() == 0 {
        Seq::empty()
    } else {
        encoding(fields.drop_last()) + field_bytes(fields.last())
    }
}

/// Calls `AdStructure::encode_slice` of trouble-host on a buffer of
/// `capacity` zero bytes and returns the part that was written.
///
/// The encoder writes the structures one after another as [`field_bytes`]
/// says, and fails as soon as one does not fit into what is left of the
/// buffer: so it succeeds exactly where all of them together fit.
#[verifier::external_body]
fn encode_fields(fields: &[AdField], capacity: usize) -> (data: Option<Vec<u8>>)
    ensures
        data.is_some() <==> encoding(fields@).len() <= capacity,
        data matches Some(bytes) ==> bytes@ == encoding(fields@),
{
    let items: Vec<AdStructure<'_>> = fields.iter().map(|f| match f {
        AdField::Flags(flags) => AdStructure::Flags(*flags),
        AdField::ServiceUuids16(uuids) => AdStructure::CompleteServiceUuids16(uuids),
        AdField::LocalName(name) => AdStructure::CompleteLocalName(name),
        AdField::ManufacturerData { company, payload } => AdStructure::ManufacturerSpecificData {
            company_identifier: *company,
            payload,
        },
    }).collect();
    let mut dest = vec![0u8; capacity];
    let len = AdStructure::encode_slice(&items, &mut dest).ok()?;
    dest.truncate(len);
    Some(dest)
}

/// The bytes of three structures in a row.
proof fn lemma_encoding_of_three(fields: Seq<AdField>)
    requires
        fields.len() == 3,
    ensures
        encoding(fields) == field_bytes(fields[0]) + field_bytes(fields[1]) + field_bytes(
            fields[2],
        ),
{
    reveal_with_fuel(encoding, 4);
    let two = fields.drop_last();
    let one = two.drop_last();
    assert(one.drop_last().len() == 0);
    assert(Seq::<u8>::empty() + field_bytes(fields[0]) =~= field_bytes(fields[0]));
}

/// The big-endian bytes of a 32-bit number.
pub open spec fn be32(value: u32) -> Seq<u8> {
    seq![
        (value / 0x100_0000) as u8,
        ((value / 0x1_0000) % 256) as u8,
        ((value / 0x100) % 256) as u8,
        (value % 256) as u8,
    ]
}

/// The number that four big-endian bytes stand for.
pub open spec fn be32_value(bytes: Seq<u8>) -> int {
    bytes[0] * 0x100_0000 + bytes[1] * 0x1_0000 + bytes[2] * 0x100 + bytes[3]
}

/// The vendor payload of the beacon: the update count, then the time since
/// start in milliseconds cut to 32 bits, both big-endian.
pub open spec fn beacon_payload_spec(count: u32, elapsed_ms: u64) -> Seq<u8> {
    be32(count) + be32((elapsed_ms % 0x1_0000_0000) as u32)
}

/// The name that the beacon advertises: "Trouble Beacon".
pub open spec fn beacon_name() -> Seq<u8> {
    seq![
        0x54u8, 0x72u8, 0x6fu8, 0x75u8, 0x62u8, 0x6cu8, 0x65u8, 0x20u8, 0x42u8, 0x65u8, 0x61u8,
        0x63u8, 0x6fu8, 0x6eu8,
    ]
}

/// The advertising data of the beacon: its name, the flags, and the vendor
/// payload under [`COMPANY_ID`]; 31 bytes.
pub open spec fn beacon_data_spec(count: u32, elapsed_ms: u64) -> Seq<u8> {
    seq![15u8, 0x09u8] + beacon_name() + seq![2u8, 0x01u8, FLAGS] + seq![
        11u8,
        0xffu8,
        0xffu8,
        0xffu8,
    ] + beacon_payload_spec(count, elapsed_ms)
}

/// The advertising data under which the node is found: the flags, the
/// battery service's identifier, and the name.
pub open spec fn discovery_data_spec(name: Seq<u8>) -> Seq<u8> {
    seq![2u8, 0x01u8, FLAGS, 3u8, 0x03u8, 0x0fu8, 0x18u8, (name.len() + 1) as u8, 0x09u8] + name
}

/// Writes a 32-bit number as four big-endian bytes.
fn be32_bytes(value: u32) -> (bytes: [u8; 4])
    ensures
        bytes@ == be32(value),
{
    let bytes: [u8; 4] = [
        (value / 0x100_0000) as u8,
        ((value / 0x1_0000) % 256) as u8,
        ((value / 0x100) % 256) as u8,
        (value % 256) as u8,
    ];
    assert(bytes@ =~= be32(value));
    bytes
}

/// Builds the vendor payload of the beacon from the update count and the
/// milliseconds since start.
pub fn make_adv_payload(elapsed_ms: u64, update_count: u32) -> (payload: [u8; 8])
    ensures
        payload@ == beacon_payload_spec(update_count, elapsed_ms),
{
    let count = be32_bytes(update_count);
    let elapsed = be32_bytes((elapsed_ms % 0x1_0000_0000) as u32);
    let payload: [u8; 8] = [
        count[0],
        count[1],
        count[2],
        count[3],
        elapsed[0],
        elapsed[1],
        elapsed[2],
        elapsed[3],
    ];
    assert(payload@ =~= beacon_payload_spec(update_count, elapsed_ms));
    payload
}

/// Encodes the data under which the node is found. `None` where the name is
/// longer than [`MAX_NAME_LEN`] bytes: the data would not fit.
pub fn discovery_data(name: &[u8]) -> (data: Option<Vec<u8>>)
    ensures
        data.is_some() <==> name@.len() <= MAX_NAME_LEN,
        data matches Some(bytes) ==> bytes@ == discovery_data_spec(name@) && bytes@.len()
            <= DISCOVERY_CAPACITY,
{
    let mut fields: Vec<AdField> = Vec::new();
    fields.push(AdField::Flags(FLAGS));
    fields.push(AdField::ServiceUuids16(vec![[0x0fu8, 0x18u8]]));
    fields.push(AdField::LocalName(slice_to_vec(name)));
    proof {
        lemma_encoding_of_three(fields@);
        assert(uuid_bytes(seq![[0x0fu8, 0x18u8]]) =~= seq![0x0fu8, 0x18u8]);
        if name@.len() <= MAX_NAME_LEN {
            assert(encoding(fields@) =~= discovery_data_spec(name@));
        }
        assert(encoding(fields@).len() == name@.len() + 9);
    }
    encode_fields(fields.as_slice(), DISCOVERY_CAPACITY)
}

/// Encodes the advertising data of the beacon for an update count and the
/// milliseconds since start.
pub fn beacon_data(elapsed_ms: u64, update_count: u32) -> (data: Vec<u8>)
    ensures
        data@ == beacon_data_spec(update_count, elapsed_ms),
        data@.len() == 31,
{
    let payload = make_adv_payload(elapsed_ms, update_count);
    let name: Vec<u8> = vec![
        0x54u8, 0x72u8, 0x6fu8, 0x75u8, 0x62u8, 0x6cu8, 0x65u8, 0x20u8, 0x42u8, 0x65u8, 0x61u8,
        0x63u8, 0x6fu8, 0x6eu8,
    ];
    assert(name@ =~= beacon_name());
    let mut fields: Vec<AdField> = Vec::new();
    fields.push(AdField::LocalName(name));
    fields.push(AdField::Flags(FLAGS));
    fields.push(
        AdField::ManufacturerData { company: COMPANY_ID, payload: slice_to_vec(payload.as_slice()) },
    );
    proof {
        lemma_encoding_of_three(fields@);
        assert(encoding(fields@) =~= beacon_data_spec(update_count, elapsed_ms));
        assert(encoding(fields@).len() == 31);
    }
    match encode_fields(fields.as_slice(), BEACON_CAPACITY) {
        Some(data) => data,
        None => Vec::new(),
    }
}

/// The liveness beacon: counts its updates.
#[derive(Clone, Copy, Debug, PartialEq, Eq)]
pub struct Beacon {
    pub update_count: u32,
}

/// What one update of the beacon gives.
#[derive(Debug, PartialEq, Eq)]
pub struct BeaconUpdate {
    /// The advertising data to push to the running advertisement.
    pub data: Vec<u8>,
    /// Whether to report that the beacon is still running.
    pub log: bool,
}

/// The count after one more update; it wraps around.
pub open spec fn next_count(count: u32) -> u32 {
    if count == u32::MAX {
        0
    } else {
        (count + 1) as u32
    }
}

impl Beacon {
    /// A beacon that has not been updated yet.
    pub fn new() -> (beacon: Beacon)
        ensures
            beacon.update_count == 0,
    {
        Beacon { update_count: 0 }
    }

    /// The advertising data for the current count.
    pub fn data(&self, elapsed_ms: u64) -> (data: Vec<u8>)
        ensures
            data@ == beacon_data_spec(self.update_count, elapsed_ms),
    {
        beacon_data(elapsed_ms, self.update_count)
    }

    /// One update: counts up, wrapping around, and encodes the data anew.
    /// Every [`LOG_EVERY`]th count asks for a report.
    pub fn tick(&mut self, elapsed_ms: u64) -> (update: BeaconUpdate)
        ensures
            final(self).update_count == next_count(old(self).update_count),
            update.data@ == beacon_data_spec(final(self).update_count, elapsed_ms),
            update.log == (final(self).update_count % LOG_EVERY == 0),
    {
        self.update_count = self.update_count.wrapping_add(1);
        let data = beacon_data(elapsed_ms, self.update_count);
        BeaconUpdate { data, log: self.update_count % LOG_EVERY == 0 }
    }
}

/// The payload carries the count and the milliseconds, cut to 32 bits: read
/// as two big-endian numbers, its halves give them back.
pub proof fn lemma_beacon_payload_reads_back(count: u32, elapsed_ms: u64)
    ensures
        beacon_payload_spec(count, elapsed_ms).len() == 8,
        be32_value(beacon_payload_spec(count, elapsed_ms).subrange(0, 4)) == count,
        be32_value(beacon_payload_spec(count, elapsed_ms).subrange(4, 8)) == elapsed_ms
            % 0x1_0000_0000,
{
    let low = (elapsed_ms % 0x1_0000_0000) as u32;
    assert(beacon_payload_spec(count, elapsed_ms).subrange(0, 4) =~= be32(count));
    assert(beacon_payload_spec(count, elapsed_ms).subrange(4, 8) =~= be32(low));
    lemma_be32_reads_back(count);
    lemma_be32_reads_back(low);
}

/// Four big-endian bytes stand for the number they were written from.
pub proof fn lemma_be32_reads_back(value: u32)
    ensures
        be32_value(be32(value)) == value,
{
    let v = value as int;
    assert(v == (v / 0x100_0000) * 0x100_0000 + ((v / 0x1_0000) % 256) * 0x1_0000 + ((v / 0x100)
        % 256) * 0x100 + v % 256);
}

}
