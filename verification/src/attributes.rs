//! Attribute table: the data points that the node serves to its peer.
//!
//! The table is built once. Afterwards only the values change; which
//! attributes exist, what may be done with each and how wide it is stay as
//! they were. An attribute's handle is its position in the table.

use vstd::prelude::*;
use vstd::slice::slice_to_vec;

verus! {

/// Handle of the battery level: one byte, 0 to 100.
pub const LEVEL: u16 = 0;

/// Handle of the power status: one byte, a boolean.
pub const STATUS: u16 = 1;

/// Handle of the current time: ten bytes.
pub const CURRENT_TIME: u16 = 2;

/// One attribute: what may be done with it, its width and its value.
#[derive(Debug, PartialEq, Eq)]
pub struct Attribute {
    pub readable: bool,
    pub writable: bool,
    pub notifying: bool,
    /// Number of bytes of the value.
    pub width: usize,
    /// Lowest and highest value of a one-byte attribute, where it is bounded.
    pub bounds: Option<(u8, u8)>,
    /// What the attribute is, in words for the peer; empty where nothing is
    /// said.
    pub description: Vec<u8>,
    pub value: Vec<u8>,
}

/// An attribute over sequences.
pub struct AttributeModel {
    pub readable: bool,
    pub writable: bool,
    pub notifying: bool,
    pub width: nat,
    pub bounds: Option<(u8, u8)>,
    pub description: Seq<u8>,
    pub value: Seq<u8>,
}

impl AttributeModel {
    /// The same attribute with another value.
    pub open spec fn with_value(self, value: Seq<u8>) -> AttributeModel {
        AttributeModel {
            readable: self.readable,
            writable: self.writable,
            notifying: self.notifying,
            width: self.width,
            bounds: self.bounds,
            description: self.description,
            value,
        }
    }

    /// The value is as wide as declared.
    pub open spec fn wf(self) -> bool {
        self.value.len() == self.width
    }

    /// The bytes respect the bounds, where the attribute has any.
    pub open spec fn admits(self, data: Seq<u8>) -> bool {
        match self.bounds {
            Some((low, high)) => data.len() == 1 ==> low <= data[0] <= high,
            None => true,
        }
    }
}

impl View for Attribute {
    type V = AttributeModel;

    open spec fn view(&self) -> AttributeModel {
        AttributeModel {
            readable: self.readable,
            writable: self.writable,
            notifying: self.notifying,
            width: self.width as nat,
            bounds: self.bounds,
            description: self.description@,
            value: self.value@,
        }
    }
}

/// Why a read, a write or a local update is refused.
#[derive(Clone, Copy, Debug, PartialEq, Eq)]
pub enum Refusal {
    /// No attribute has this handle.
    UnknownAttribute,
    /// The attribute cannot be read by the peer.
    NotReadable,
    /// The attribute cannot be written by the peer.
    NotWritable,
    /// The attribute sends no notifications.
    NotNotifying,
    /// The data is not as wide as the attribute.
    WrongWidth,
    /// The data lies outside the attribute's bounds.
    OutOfBounds,
}

/// The table after the peer writes `data` to `handle`, and the refusal if
/// the write is refused. A refused write leaves the table as it was.
pub open spec fn write_spec(table: Seq<AttributeModel>, handle: u16, data: Seq<u8>) -> (
    Seq<AttributeModel>,
    Option<Refusal>,
) {
    if handle >= table.len() {
        (table, Some(Refusal::UnknownAttribute))
    } else if !table[handle as int].writable {
        (table, Some(Refusal::NotWritable))
    } else if data.len() != table[handle as int].width {
        (table, Some(Refusal::WrongWidth))
    } else {
        (table.update(handle as int, table[handle as int].with_value(data)), None)
    }
}

/// What the peer gets when it reads `handle`.
pub open spec fn read_spec(table: Seq<AttributeModel>, handle: u16) -> Result<Seq<u8>, Refusal> {
    if handle >= table.len() {
        Err(Refusal::UnknownAttribute)
    } else if !table[handle as int].readable {
        Err(Refusal::NotReadable)
    } else {
        Ok(table[handle as int].value)
    }
}

/// The table after the node itself sets `handle` to `data` for a
/// notification, and the refusal if that is refused. A refused update leaves
/// the table as it was.
pub open spec fn notify_spec(table: Seq<AttributeModel>, handle: u16, data: Seq<u8>) -> (
    Seq<AttributeModel>,
    Option<Refusal>,
) {
    if handle >= table.len() {
        (table, Some(Refusal::UnknownAttribute))
    } else if !table[handle as int].notifying {
        (table, Some(Refusal::NotNotifying))
    } else if data.len() != table[handle as int].width {
        (table, Some(Refusal::WrongWidth))
    } else if !table[handle as int].admits(data) {
        (table, Some(Refusal::OutOfBounds))
    } else {
        (table.update(handle as int, table[handle as int].with_value(data)), None)
    }
}

/// Two tables declare the same attributes: only values may differ.
pub open spec fn same_schema(a: Seq<AttributeModel>, b: Seq<AttributeModel>) -> bool {
    &&& a.len() == b.len()
    &&& forall|i: int| 0 <= i < a.len() ==> (#[trigger] a[i]).with_value(b[i].value) == b[i]
}

/// The description of the battery level: "Battery Level".
pub open spec fn level_description() -> Seq<u8> {
    seq![
        0x42u8, 0x61u8, 0x74u8, 0x74u8, 0x65u8, 0x72u8, 0x79u8, 0x20u8, 0x4cu8, 0x65u8, 0x76u8,
        0x65u8, 0x6cu8,
    ]
}

/// The attributes of the sensor node as they are at start: the battery level
/// at 10, the status off, the time all zero.
pub open spec fn sensor_node_table() -> Seq<AttributeModel> {
    seq![
        AttributeModel {
            readable: true,
            writable: false,
            notifying: true,
            width: 1,
            bounds: Some((0u8, 100u8)),
            description: level_description(),
            value: seq![10u8],
        },
        AttributeModel {
            readable: true,
            writable: true,
            notifying: true,
            width: 1,
            bounds: None,
            description: Seq::empty(),
            value: seq![0u8],
        },
        AttributeModel {
            readable: true,
            writable: false,
            notifying: true,
            width: 10,
            bounds: None,
            description: Seq::empty(),
            value: Seq::new(10, |i: int| 0u8),
        },
    ]
}

/// The served attributes with their current values.
#[derive(Debug)]
pub struct AttributeTable {
    attributes: Vec<Attribute>,
}

impl View for AttributeTable {
    type V = Seq<AttributeModel>;

    closed spec fn view(&self) -> Seq<AttributeModel> {
        Seq::new(self.attributes@.len(), |i: int| self.attributes@[i]@)
    }
}

impl AttributeTable {
    /// Every value is as wide as its attribute declares.
    #[verifier::type_invariant]
    closed spec fn values_fit(self) -> bool {
        forall|i: int|
            0 <= i < self.attributes@.len() ==> (#[trigger] self.attributes@[i])@.wf()
    }

    /// Builds a table from its attributes, handles in the order given.
    /// `None` where a value is not as wide as its attribute declares.
    pub fn new(attributes: Vec<Attribute>) -> (table: Option<AttributeTable>)
        ensures
            table.is_some() <==> (forall|i: int|
                0 <= i < attributes@.len() ==> (#[trigger] attributes@[i])@.wf()),
            table matches Some(t) ==> t@ == Seq::new(attributes@.len(), |i: int| attributes@[i]@),
    {
        let mut i: usize = 0;
        while i < attributes.len()
            invariant
                i <= attributes.len(),
                forall|j: int| 0 <= j < i ==> (#[trigger] attributes@[j])@.wf(),
            decreases attributes.len() - i,
        {
            if attributes[i].value.len() != attributes[i].width {
                assert(!attributes@[i as int]@.wf());
                return None;
            }
            i += 1;
        }
        Some(AttributeTable { attributes })
    }

    /// The table of the sensor node: battery level, power status and current
    /// time, under the handles [`LEVEL`], [`STATUS`] and [`CURRENT_TIME`].
    pub fn sensor_node() -> (table: AttributeTable)
        ensures
            table@ == sensor_node_table(),
    {
        let mut attributes: Vec<Attribute> = Vec::new();
        attributes.push(
            Attribute {
                readable: true,
                writable: false,
                notifying: true,
                width: 1,
                bounds: Some((0, 100)),
                description: vec![
                    0x42u8, 0x61u8, 0x74u8, 0x74u8, 0x65u8, 0x72u8, 0x79u8, 0x20u8, 0x4cu8, 0x65u8,
                    0x76u8, 0x65u8, 0x6cu8,
                ],
                value: vec![10u8],
            },
        );
        attributes.push(
            Attribute {
                readable: true,
                writable: true,
                notifying: true,
                width: 1,
                bounds: None,
                description: Vec::new(),
                value: vec![0u8],
            },
        );
        attributes.push(
            Attribute {
                readable: true,
                writable: false,
                notifying: true,
                width: 10,
                bounds: None,
                description: Vec::new(),
                value: vec![0u8, 0, 0, 0, 0, 0, 0, 0, 0, 0],
            },
        );
        let table = AttributeTable { attributes };
        proof {
            let model = sensor_node_table();
            assert(table@.len() == 3);
            assert(table@[0].description =~= model[0].description);
            assert(table@[1].description =~= model[1].description);
            assert(table@[2].description =~= model[2].description);
            assert(table@[0].value =~= model[0].value);
            assert(table@[1].value =~= model[1].value);
            assert(table@[2].value =~= model[2].value);
            assert(table@ =~= model);
        }
        table
    }

    /// Number of attributes.
    pub fn len(&self) -> (n: usize)
        ensures
            n == self@.len(),
    {
        self.attributes.len()
    }

    /// The attribute under a handle, with its metadata and current value;
    /// `None` where the table has no such handle.
    pub fn get(&self, handle: u16) -> (attribute: Option<&Attribute>)
        ensures
            match attribute {
                Some(a) => handle < self@.len() && a@ == self@[handle as int],
                None => handle >= self@.len(),
            },
    {
        let h: usize = handle as usize;
        if h < self.attributes.len() {
            Some(&self.attributes[h])
        } else {
            None
        }
    }

    /// The peer reads an attribute: its current value, or why not.
    pub fn read(&self, handle: u16) -> (value: Result<Vec<u8>, Refusal>)
        ensures
            match value {
                Ok(bytes) => read_spec(self@, handle) == Ok::<Seq<u8>, Refusal>(bytes@)
                    && bytes@.len() == self@[handle as int].width,
                Err(refusal) => read_spec(self@, handle) == Err::<Seq<u8>, Refusal>(refusal),
            },
    {
        proof {
            use_type_invariant(self);
        }
        let h: usize = handle as usize;
        if h >= self.attributes.len() {
            return Err(Refusal::UnknownAttribute);
        }
        assert(self@[h as int] == self.attributes@[h as int]@);
        if !self.attributes[h].readable {
            return Err(Refusal::NotReadable);
        }
        Ok(slice_to_vec(self.attributes[h].value.as_slice()))
    }

    /// Replaces the value of an attribute that exists.
    fn store(&mut self, h: usize, data: &[u8])
        requires
            h < old(self)@.len(),
            data@.len() == old(self)@[h as int].width,
        ensures
            final(self)@ == old(self)@.update(h as int, old(self)@[h as int].with_value(data@)),
    {
        proof {
            use_type_invariant(&*self);
        }
        assert(self@[h as int] == self.attributes@[h as int]@);
        let mut emptied = AttributeTable { attributes: Vec::new() };
        core::mem::swap(self, &mut emptied);
        let mut attributes = emptied.attributes;
        let mut attribute = attributes.remove(h);
        attribute.value = slice_to_vec(data);
        attributes.insert(h, attribute);
        self.attributes = attributes;
        assert(self@ =~= old(self)@.update(h as int, old(self)@[h as int].with_value(data@)));
    }

    /// The peer writes an attribute. The value is replaced where the
    /// attribute exists, is writable and is as wide as the data; otherwise
    /// nothing changes and the refusal says why.
    pub fn write(&mut self, handle: u16, data: &[u8]) -> (refusal: Option<Refusal>)
        ensures
            final(self)@ == write_spec(old(self)@, handle, data@).0,
            refusal == write_spec(old(self)@, handle, data@).1,
    {
        let h: usize = handle as usize;
        if h >= self.attributes.len() {
            return Some(Refusal::UnknownAttribute);
        }
        assert(self@[h as int] == self.attributes@[h as int]@);
        if !self.attributes[h].writable {
            return Some(Refusal::NotWritable);
        }
        if data.len() != self.attributes[h].width {
            return Some(Refusal::WrongWidth);
        }
        self.store(h, data);
        None
    }

    /// The node sets an attribute to a new value that is then notified to the
    /// peer. The value is replaced where the attribute exists, notifies, is as
    /// wide as the data and admits it; otherwise nothing changes, nothing is
    /// to be sent, and the refusal says why.
    pub fn notify(&mut self, handle: u16, data: &[u8]) -> (refusal: Option<Refusal>)
        ensures
            final(self)@ == notify_spec(old(self)@, handle, data@).0,
            refusal == notify_spec(old(self)@, handle, data@).1,
    {
        let h: usize = handle as usize;
        if h >= self.attributes.len() {
            return Some(Refusal::UnknownAttribute);
        }
        assert(self@[h as int] == self.attributes@[h as int]@);
        if !self.attributes[h].notifying {
            return Some(Refusal::NotNotifying);
        }
        if data.len() != self.attributes[h].width {
            return Some(Refusal::WrongWidth);
        }
        match self.attributes[h].bounds {
            Some((low, high)) => {
                if data.len() == 1 && (data[0] < low || data[0] > high) {
                    return Some(Refusal::OutOfBounds);
                }
            },
            None => {},
        }
        self.store(h, data);
        None
    }
}

/// Neither a write nor a local update changes which attributes there are,
/// what may be done with them, or how wide they are.
pub proof fn lemma_schema_is_kept(table: Seq<AttributeModel>, handle: u16, data: Seq<u8>)
    ensures
        same_schema(table, write_spec(table, handle, data).0),
        same_schema(table, notify_spec(table, handle, data).0),
{
}

/// Having the same schema carries over: if only values differ between a
/// first and a second table, and between the second and a third, then only
/// values differ between the first and the third.
pub proof fn lemma_same_schema_chain(
    a: Seq<AttributeModel>,
    b: Seq<AttributeModel>,
    c: Seq<AttributeModel>,
)
    requires
        same_schema(a, b),
        same_schema(b, c),
    ensures
        same_schema(a, c),
{
    assert forall|i: int| 0 <= i < a.len() implies (#[trigger] a[i]).with_value(c[i].value)
        == c[i] by {
        assert(a[i].with_value(b[i].value) == b[i]);
        assert(b[i].with_value(c[i].value) == c[i]);
    }
}

/// After an accepted write, a read of the same attribute gives the written
/// bytes, where the attribute is readable.
pub proof fn lemma_read_after_write(table: Seq<AttributeModel>, handle: u16, data: Seq<u8>)
    requires
        write_spec(table, handle, data).1.is_none(),
        table[handle as int].readable,
    ensures
        read_spec(write_spec(table, handle, data).0, handle) == Ok::<Seq<u8>, Refusal>(data),
{
}

}
