//! The fields of an event, read from the bytes of its payload.

use crate::schema::layout_width;
use crate::schema::lemma_offset_next;
use crate::schema::lemma_offset_within;
use crate::schema::offset_of;
use crate::schema::width_spec;
use crate::schema::FieldKind;
use vstd::prelude::*;
use vstd::slice::slice_subrange;

verus! {

/// The value of one field.
#[derive(Clone, Copy, Debug, PartialEq, Eq)]
pub enum FieldValue {
    U8(u8),
    U16(u16),
    U64(u64),
    I64(i64),
    Pubkey([u8; 32]),
}

/// The mathematical value of a [`FieldValue`].
pub enum FieldModel {
    U8(u8),
    U16(u16),
    U64(u64),
    I64(i64),
    Pubkey(Seq<u8>),
}

impl View for FieldValue {
    type V = FieldModel;

    open spec fn view(&self) -> FieldModel {
        match *self {
            FieldValue::U8(v) => FieldModel::U8(v),
            FieldValue::U16(v) => FieldModel::U16(v),
            FieldValue::U64(v) => FieldModel::U64(v),
            FieldValue::I64(v) => FieldModel::I64(v),
            FieldValue::Pubkey(key) => FieldModel::Pubkey(key@),
        }
    }
}

/// The number that two bytes denote, least significant first.
pub open spec fn le_u16(b: Seq<u8>) -> int {
    b[0] + 0x100 * b[1]
}

/// The number that eight bytes denote, least significant first.
pub open spec fn le_u64(b: Seq<u8>) -> int {
    b[0] + 0x100 * b[1] + 0x1_0000 * b[2] + 0x100_0000 * b[3] + 0x1_0000_0000 * b[4]
        + 0x100_0000_0000 * b[5] + 0x1_0000_0000_0000 * b[6] + 0x100_0000_0000_0000 * b[7]
}

/// The number that eight bytes denote in two's complement, least
/// significant first.
pub open spec fn le_i64(b: Seq<u8>) -> int {
    if le_u64(b) < 0x8000_0000_0000_0000 {
        le_u64(b)
    } else {
        le_u64(b) - 0x1_0000_0000_0000_0000
    }
}

/// The field of `kind` that `bytes` hold, where `bytes` has that kind's width.
pub open spec fn field_spec(kind: FieldKind, bytes: Seq<u8>) -> FieldModel {
    match kind {
        FieldKind::U8 => FieldModel::U8(bytes[0]),
        FieldKind::U16 => FieldModel::U16(le_u16(bytes) as u16),
        FieldKind::U64 => FieldModel::U64(le_u64(bytes) as u64),
        FieldKind::I64 => FieldModel::I64(le_i64(bytes) as i64),
        FieldKind::Pubkey => FieldModel::Pubkey(bytes),
    }
}

/// The bytes of the field at `index` in a payload laid out by `layout`.
pub open spec fn field_bytes(layout: Seq<FieldKind>, payload: Seq<u8>, index: int) -> Seq<u8> {
    payload.subrange(
        offset_of(layout, index) as int,
        (offset_of(layout, index) + width_spec(layout[index])) as int,
    )
}

/// The fields of a payload laid out by `layout`, where it is long enough.
pub open spec fn record_spec(layout: Seq<FieldKind>, payload: Seq<u8>) -> Seq<FieldModel> {
    Seq::new(layout.len(), |i: int| field_spec(layout[i], field_bytes(layout, payload, i)))
}

/// The payload has a byte for every field of `layout`. Bytes beyond the
/// last field are allowed and ignored.
pub open spec fn fits(layout: Seq<FieldKind>, payload: Seq<u8>) -> bool {
    layout_width(layout) <= payload.len()
}

/// The values of a list of fields.
pub open spec fn field_models(fields: Seq<FieldValue>) -> Seq<FieldModel> {
    Seq::new(fields.len(), |i: int| fields[i]@)
}

/// The fields of one event, in the order of its layout.
#[derive(Debug, PartialEq, Eq)]
pub struct Record {
    pub fields: Vec<FieldValue>,
}

impl View for Record {
    type V = Seq<FieldModel>;

    open spec fn view(&self) -> Seq<FieldModel> {
        field_models(self.fields@)
    }
}

fn read_u64(bytes: &[u8]) -> (value: u64)
    requires
        bytes@.len() == 8,
    ensures
        value == le_u64(bytes@),
{
    let b0: u64 = bytes[0] as u64;
    let b1: u64 = bytes[1] as u64;
    let b2: u64 = bytes[2] as u64;
    let b3: u64 = bytes[3] as u64;
    let b4: u64 = bytes[4] as u64;
    let b5: u64 = bytes[5] as u64;
    let b6: u64 = bytes[6] as u64;
    let b7: u64 = bytes[7] as u64;
    b0 + 0x100 * b1 + 0x1_0000 * b2 + 0x100_0000 * b3 + 0x1_0000_0000 * b4 + 0x100_0000_0000
        * b5 + 0x1_0000_0000_0000 * b6 + 0x100_0000_0000_0000 * b7
}

fn read_i64(bytes: &[u8]) -> (value: i64)
    requires
        bytes@.len() == 8,
    ensures
        value == le_i64(bytes@),
{
    let raw: u64 = read_u64(bytes);
    if raw < 0x8000_0000_0000_0000 {
        raw as i64
    } else {
        let low: i64 = (raw - 0x8000_0000_0000_0000) as i64;
        low + i64::MIN
    }
}

fn read_key(bytes: &[u8]) -> (key: [u8; 32])
    requires
        bytes@.len() == 32,
    ensures
        key@ == bytes@,
{
    let mut key: [u8; 32] = [0u8; 32];
    let mut i: usize = 0;
    while i < 32
        invariant
            i <= 32,
            bytes@.len() == 32,
            forall|j: int| 0 <= j < i ==> key@[j] == bytes@[j],
        decreases 32 - i,
    {
        key[i] = bytes[i];
        i += 1;
    }
    assert(key@ =~= bytes@);
    key
}

/// Reads the field of `kind` that `bytes` hold.
pub fn read_field(kind: FieldKind, bytes: &[u8]) -> (value: FieldValue)
    requires
        bytes@.len() == width_spec(kind),
    ensures
        value@ == field_spec(kind, bytes@),
{
    match kind {
        FieldKind::U8 => FieldValue::U8(bytes[0]),
        FieldKind::U16 => {
            let b0: u16 = bytes[0] as u16;
            let b1: u16 = bytes[1] as u16;
            FieldValue::U16(b0 + 0x100 * b1)
        },
        FieldKind::U64 => FieldValue::U64(read_u64(bytes)),
        FieldKind::I64 => FieldValue::I64(read_i64(bytes)),
        FieldKind::Pubkey => FieldValue::Pubkey(read_key(bytes)),
    }
}

impl Record {
    /// Reads the fields of `layout` from the beginning of `payload`.
    /// There is a record exactly when the payload is long enough.
    pub fn decode(layout: &Vec<FieldKind>, payload: &[u8]) -> (record: Option<Record>)
        ensures
            record.is_some() == fits(layout@, payload@),
            record.is_some() ==> record.unwrap()@ == record_spec(layout@, payload@),
    {
        let mut fields: Vec<FieldValue> = Vec::new();
        let mut at: usize = 0;
        let mut i: usize = 0;
        while i < layout.len()
            invariant
                i <= layout@.len(),
                at == offset_of(layout@, i as int),
                at <= payload@.len(),
                fields@.len() == i,
                forall|j: int|
                    0 <= j < i ==> (#[trigger] fields@[j])@ == field_spec(
                        layout@[j],
                        field_bytes(layout@, payload@, j),
                    ),
            decreases layout@.len() - i,
        {
            let kind: FieldKind = layout[i];
            let width: usize = kind.width();
            proof {
                lemma_offset_next(layout@, i as int);
                lemma_offset_within(layout@, i + 1);
            }
            if payload.len() - at < width {
                return None;
            }
            let value = read_field(kind, slice_subrange(payload, at, at + width));
            fields.push(value);
            at += width;
            i += 1;
        }
        assert(layout@.take(i as int) =~= layout@);
        let record = Record { fields };
        assert(record@ =~= record_spec(layout@, payload@));
        Some(record)
    }
}

} // verus!
