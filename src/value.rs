//! Values that cross the boundary as bound parameters or result columns.

use vstd::prelude::*;

verus! {

/// A parameter or column value. Exactly one variant is active.
///
/// A double travels as its IEEE-754 bit pattern (`f64::to_bits`), so that the
/// library never computes with floating point.
pub enum SqlValue {
    Null,
    Blob(Vec<u8>),
    Text(String),
    Double(u64),
    Int(i32),
    Int64(i64),
}

/// The mathematical model of a [`SqlValue`].
pub enum ValueModel {
    Null,
    Blob(Seq<u8>),
    Text(Seq<char>),
    Double(u64),
    Int(i32),
    Int64(i64),
}

impl View for SqlValue {
    type V = ValueModel;

    open spec fn view(&self) -> ValueModel {
        match self {
            SqlValue::Null => ValueModel::Null,
            SqlValue::Blob(b) => ValueModel::Blob(b@),
            SqlValue::Text(t) => ValueModel::Text(t@),
            SqlValue::Double(d) => ValueModel::Double(*d),
            SqlValue::Int(i) => ValueModel::Int(*i),
            SqlValue::Int64(i) => ValueModel::Int64(*i),
        }
    }
}

impl DeepView for SqlValue {
    type V = ValueModel;

    open spec fn deep_view(&self) -> ValueModel {
        self@
    }
}

/// Copies a byte vector.
pub fn copy_bytes(b: &Vec<u8>) -> (r: Vec<u8>)
    ensures
        r@ == b@,
{
    let mut r: Vec<u8> = Vec::new();
    let mut i: usize = 0;
    while i < b.len()
        invariant
            i <= b@.len(),
            r@ == b@.subrange(0, i as int),
        decreases b@.len() - i,
    {
        r.push(b[i]);
        i = i + 1;
    }
    assert(r@ =~= b@);
    r
}

impl SqlValue {
    /// A copy of the value.
    pub fn duplicate(&self) -> (r: SqlValue)
        ensures
            r@ == self@,
    {
        match self {
            SqlValue::Null => SqlValue::Null,
            SqlValue::Blob(b) => SqlValue::Blob(copy_bytes(b)),
            SqlValue::Text(t) => SqlValue::Text(t.clone()),
            SqlValue::Double(d) => SqlValue::Double(*d),
            SqlValue::Int(i) => SqlValue::Int(*i),
            SqlValue::Int64(i) => SqlValue::Int64(*i),
        }
    }

    /// Whether this is the SQL `NULL` value.
    pub fn is_null(&self) -> (r: bool)
        ensures
            r == (self@ == ValueModel::Null),
    {
        match self {
            SqlValue::Null => true,
            _ => false,
        }
    }
}

} // verus!
