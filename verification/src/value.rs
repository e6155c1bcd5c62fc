//! The plain values a frame can carry, and the field-type descriptors the
//! operation schema is written in.

use vstd::prelude::*;
use vstd::utf8::encode_utf8;

verus! {

/// Largest byte length a variable-length field (bytes or text) may have on
/// the wire: its length travels as a four-byte word.
pub const MAX_SEGMENT: usize = 0xffff_ffff;

/// A field type as the operation schema declares it. Numeric fields travel
/// as a 64-bit word; a caller that works in another numeric representation
/// converts at the boundary.
#[derive(Clone, Copy, PartialEq, Eq, Structural, Debug)]
pub enum FieldType {
    Bool,
    Num,
    Bytes,
    Text,
}

/// One value of a request or response field.
#[derive(Debug, PartialEq)]
pub enum Value {
    Bool(bool),
    Num(u64),
    Bytes(Vec<u8>),
    Text(String),
}

/// The mathematical shape of a [`Value`].
pub enum ValueView {
    Bool(bool),
    Num(u64),
    Bytes(Seq<u8>),
    Text(Seq<char>),
}

impl View for Value {
    type V = ValueView;

    open spec fn view(&self) -> ValueView {
        match self {
            Value::Bool(b) => ValueView::Bool(*b),
            Value::Num(n) => ValueView::Num(*n),
            Value::Bytes(v) => ValueView::Bytes(v@),
            Value::Text(s) => ValueView::Text(s@),
        }
    }
}

/// Whether a value has the declared field type.
pub open spec fn has_type(v: ValueView, t: FieldType) -> bool {
    match (v, t) {
        (ValueView::Bool(_), FieldType::Bool) => true,
        (ValueView::Num(_), FieldType::Num) => true,
        (ValueView::Bytes(_), FieldType::Bytes) => true,
        (ValueView::Text(_), FieldType::Text) => true,
        _ => false,
    }
}

/// Whether a list of values carries exactly a declared field list: one
/// value per field, each of its declared type, in order.
pub open spec fn items_match(items: Seq<ValueView>, fields: Seq<FieldType>) -> bool {
    &&& items.len() == fields.len()
    &&& forall|i: int| 0 <= i < items.len() ==> has_type(#[trigger] items[i], fields[i])
}

/// A value small enough to travel: a variable-length segment must fit its
/// four-byte length word.
pub open spec fn wf_value(v: ValueView) -> bool {
    match v {
        ValueView::Bool(_) => true,
        ValueView::Num(_) => true,
        ValueView::Bytes(b) => b.len() <= MAX_SEGMENT,
        ValueView::Text(s) => encode_utf8(s).len() <= MAX_SEGMENT,
    }
}

} // verus!
