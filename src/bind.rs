//! Collecting bound parameters and turning them into wire bind pairs.

use vstd::prelude::*;
use vstd::slice::slice_to_vec;

use crate::value::{SqlValue, ValueModel};
use crate::wire::{BindKey, BindKeyModel, BindPair};

verus! {

/// Determines how a bind parameter is given to SQLite.
#[derive(PartialEq, Eq, Structural, Clone, Copy, Debug, Hash)]
pub enum SqliteType {
    /// Bound as a blob.
    Binary,
    /// Bound as text.
    Text,
    /// A single-precision float, bound as a double.
    Float,
    /// A double.
    Double,
    /// A 16-bit integer, bound as a 32-bit one.
    SmallInt,
    /// A 32-bit integer.
    Integer,
    /// A 64-bit integer.
    Long,
}

/// A parameter value before it is sent. Text and bytes may still be borrowed
/// from the caller; they are copied when the bind pair is built.
pub enum InternalSqliteBindValue<'a> {
    BorrowedString(&'a str),
    String(String),
    BorrowedBinary(&'a [u8]),
    Binary(Vec<u8>),
    I32(i32),
    I64(i64),
    /// A double, as its IEEE-754 bit pattern.
    F64(u64),
    Null,
}

impl<'a> View for InternalSqliteBindValue<'a> {
    type V = ValueModel;

    /// The wire value that the parameter is sent as.
    open spec fn view(&self) -> ValueModel {
        match self {
            InternalSqliteBindValue::BorrowedString(s) => ValueModel::Text(s@),
            InternalSqliteBindValue::String(s) => ValueModel::Text(s@),
            InternalSqliteBindValue::BorrowedBinary(b) => ValueModel::Blob(b@),
            InternalSqliteBindValue::Binary(b) => ValueModel::Blob(b@),
            InternalSqliteBindValue::I32(i) => ValueModel::Int(*i),
            InternalSqliteBindValue::I64(i) => ValueModel::Int64(*i),
            InternalSqliteBindValue::F64(d) => ValueModel::Double(*d),
            InternalSqliteBindValue::Null => ValueModel::Null,
        }
    }
}

pub open spec fn storage_class_of(v: ValueModel) -> Seq<char> {
    match v {
        ValueModel::Text(_) => "Text"@,
        ValueModel::Blob(_) => "Binary"@,
        ValueModel::Int(_) | ValueModel::Int64(_) => "Integer"@,
        ValueModel::Double(_) => "Float"@,
        ValueModel::Null => "Null"@,
    }
}

impl<'a> InternalSqliteBindValue<'a> {
    /// Builds the bind pair that sends `src` as the parameter at position
    /// `idx`; borrowed text and bytes are copied.
    pub fn to_ffi_struct(idx: i32, src: InternalSqliteBindValue<'a>) -> (r: BindPair)
        requires
            idx >= 0,
        ensures
            r@ == (BindKeyModel::Numeric(idx as usize), src@),
    {
        let key = BindKey::Numeric(idx as usize);
        let value = match src {
            InternalSqliteBindValue::BorrowedString(s) => SqlValue::Text(s.to_owned()),
            InternalSqliteBindValue::String(s) => SqlValue::Text(s),
            InternalSqliteBindValue::BorrowedBinary(b) => SqlValue::Blob(slice_to_vec(b)),
            InternalSqliteBindValue::Binary(b) => SqlValue::Blob(b),
            InternalSqliteBindValue::I32(i) => SqlValue::Int(i),
            InternalSqliteBindValue::I64(i) => SqlValue::Int64(i),
            InternalSqliteBindValue::F64(d) => SqlValue::Double(d),
            InternalSqliteBindValue::Null => SqlValue::Null,
        };
        BindPair { key, value }
    }

    /// The name of the value's storage class.
    pub fn storage_class(&self) -> (r: &'static str)
        ensures
            r@ == storage_class_of(self@),
    {
        match self {
            InternalSqliteBindValue::BorrowedString(_) | InternalSqliteBindValue::String(_) => {
                "Text"
            },
            InternalSqliteBindValue::BorrowedBinary(_) | InternalSqliteBindValue::Binary(_) => {
                "Binary"
            },
            InternalSqliteBindValue::I32(_) | InternalSqliteBindValue::I64(_) => "Integer",
            InternalSqliteBindValue::F64(_) => "Float",
            InternalSqliteBindValue::Null => "Null",
        }
    }
}

/// A value bound to a prepared statement, as a serializer produces it.
pub struct SqliteBindValue<'a> {
    pub inner: InternalSqliteBindValue<'a>,
}

impl<'a> View for SqliteBindValue<'a> {
    type V = ValueModel;

    open spec fn view(&self) -> ValueModel {
        self.inner@
    }
}

impl<'a> SqliteBindValue<'a> {
    /// The `NULL` value.
    pub fn null() -> (r: SqliteBindValue<'a>)
        ensures
            r@ == ValueModel::Null,
    {
        SqliteBindValue { inner: InternalSqliteBindValue::Null }
    }

    /// A double, given by its IEEE-754 bit pattern.
    pub fn from_double_bits(bits: u64) -> (r: SqliteBindValue<'a>)
        ensures
            r@ == ValueModel::Double(bits),
    {
        SqliteBindValue { inner: InternalSqliteBindValue::F64(bits) }
    }

    /// An optional value: absence is bound as `NULL`.
    pub fn from_option(o: Option<SqliteBindValue<'a>>) -> (r: SqliteBindValue<'a>)
        ensures
            r@ == match o {
                Some(v) => v@,
                None => ValueModel::Null,
            },
    {
        match o {
            Some(v) => v,
            None => SqliteBindValue { inner: InternalSqliteBindValue::Null },
        }
    }
}

impl<'a> From<i32> for SqliteBindValue<'a> {
    fn from(i: i32) -> SqliteBindValue<'a> {
        SqliteBindValue { inner: InternalSqliteBindValue::I32(i) }
    }
}

impl<'a> vstd::std_specs::convert::FromSpecImpl<i32> for SqliteBindValue<'a> {
    open spec fn obeys_from_spec() -> bool {
        true
    }

    open spec fn from_spec(i: i32) -> SqliteBindValue<'a> {
        SqliteBindValue { inner: InternalSqliteBindValue::I32(i) }
    }
}

impl<'a> From<i64> for SqliteBindValue<'a> {
    fn from(i: i64) -> SqliteBindValue<'a> {
        SqliteBindValue { inner: InternalSqliteBindValue::I64(i) }
    }
}

impl<'a> vstd::std_specs::convert::FromSpecImpl<i64> for SqliteBindValue<'a> {
    open spec fn obeys_from_spec() -> bool {
        true
    }

    open spec fn from_spec(i: i64) -> SqliteBindValue<'a> {
        SqliteBindValue { inner: InternalSqliteBindValue::I64(i) }
    }
}

impl<'a> From<&'a str> for SqliteBindValue<'a> {
    fn from(s: &'a str) -> SqliteBindValue<'a> {
        SqliteBindValue { inner: InternalSqliteBindValue::BorrowedString(s) }
    }
}

impl<'a> vstd::std_specs::convert::FromSpecImpl<&'a str> for SqliteBindValue<'a> {
    open spec fn obeys_from_spec() -> bool {
        true
    }

    open spec fn from_spec(s: &'a str) -> SqliteBindValue<'a> {
        SqliteBindValue { inner: InternalSqliteBindValue::BorrowedString(s) }
    }
}

impl<'a> From<String> for SqliteBindValue<'a> {
    fn from(s: String) -> SqliteBindValue<'a> {
        SqliteBindValue { inner: InternalSqliteBindValue::String(s) }
    }
}

impl<'a> vstd::std_specs::convert::FromSpecImpl<String> for SqliteBindValue<'a> {
    open spec fn obeys_from_spec() -> bool {
        true
    }

    open spec fn from_spec(s: String) -> SqliteBindValue<'a> {
        SqliteBindValue { inner: InternalSqliteBindValue::String(s) }
    }
}

impl<'a> From<&'a [u8]> for SqliteBindValue<'a> {
    fn from(b: &'a [u8]) -> SqliteBindValue<'a> {
        SqliteBindValue { inner: InternalSqliteBindValue::BorrowedBinary(b) }
    }
}

impl<'a> vstd::std_specs::convert::FromSpecImpl<&'a [u8]> for SqliteBindValue<'a> {
    open spec fn obeys_from_spec() -> bool {
        true
    }

    open spec fn from_spec(b: &'a [u8]) -> SqliteBindValue<'a> {
        SqliteBindValue { inner: InternalSqliteBindValue::BorrowedBinary(b) }
    }
}

impl<'a> From<Vec<u8>> for SqliteBindValue<'a> {
    fn from(b: Vec<u8>) -> SqliteBindValue<'a> {
        SqliteBindValue { inner: InternalSqliteBindValue::Binary(b) }
    }
}

impl<'a> vstd::std_specs::convert::FromSpecImpl<Vec<u8>> for SqliteBindValue<'a> {
    open spec fn obeys_from_spec() -> bool {
        true
    }

    open spec fn from_spec(b: Vec<u8>) -> SqliteBindValue<'a> {
        SqliteBindValue { inner: InternalSqliteBindValue::Binary(b) }
    }
}

/// Accumulates a statement's parameters in call order, each with its declared
/// SQL type.
pub struct SqliteBindCollector<'a> {
    pub binds: Vec<(InternalSqliteBindValue<'a>, SqliteType)>,
}

/// The wire pairs for parameters collected in order: the parameter at index
/// `i` is sent under the 1-based key `i + 1`.
pub open spec fn positional_pairs(vs: Seq<ValueModel>) -> Seq<(BindKeyModel, ValueModel)> {
    Seq::new(vs.len(), |i: int| (BindKeyModel::Numeric((i + 1) as usize), vs[i]))
}

impl<'a> SqliteBindCollector<'a> {
    /// The values collected so far, in order.
    pub open spec fn values(&self) -> Seq<ValueModel> {
        self.binds@.map_values(|b: (InternalSqliteBindValue<'a>, SqliteType)| b.0@)
    }

    /// The declared types of the values collected so far, in order.
    pub open spec fn types(&self) -> Seq<SqliteType> {
        self.binds@.map_values(|b: (InternalSqliteBindValue<'a>, SqliteType)| b.1)
    }

    pub fn new() -> (r: SqliteBindCollector<'a>)
        ensures
            r.binds@.len() == 0,
    {
        SqliteBindCollector { binds: Vec::new() }
    }

    /// Records one parameter: the value that the serializer wrote, unless it
    /// reported `NULL`, which then wins over the value.
    pub fn push_bound_value(&mut self, bind: SqliteBindValue<'a>, is_null: bool, metadata: SqliteType)
        ensures
            final(self).values() == old(self).values().push(
                if is_null {
                    ValueModel::Null
                } else {
                    bind@
                },
            ),
            final(self).types() == old(self).types().push(metadata),
    {
        let value = if is_null {
            InternalSqliteBindValue::Null
        } else {
            bind.inner
        };
        let ghost v = value@;
        self.binds.push((value, metadata));
        assert(self.values() =~= old(self).values().push(v));
        assert(self.types() =~= old(self).types().push(metadata));
    }

    /// Turns the collected parameters into wire bind pairs, keyed by their
    /// 1-based position.
    pub fn into_bind_pairs(self) -> (r: Vec<BindPair>)
        requires
            self.binds@.len() < i32::MAX,
        ensures
            r.deep_view() == positional_pairs(self.values()),
    {
        let ghost vals = self.values();
        let n = self.binds.len();
        let mut binds = self.binds;
        let mut out: Vec<BindPair> = Vec::new();
        let mut i: usize = 0;
        while binds.len() > 0
            invariant
                n == vals.len(),
                n < i32::MAX,
                i + binds@.len() == n,
                forall|j: int| 0 <= j < binds@.len() ==> (#[trigger] binds@[j]).0@ == vals[i + j],
                out.deep_view() == positional_pairs(vals.take(i as int)),
            decreases binds@.len(),
        {
            assert(binds@[0].0@ == vals[i + 0]);
            let ghost old_binds = binds@;
            let (v, _t) = binds.remove(0);
            assert forall|j: int| 0 <= j < binds@.len() implies (#[trigger] binds@[j]).0@ == vals[(i
                + 1) + j] by {
                assert(binds@[j] == old_binds[j + 1]);
            }
            let pair = InternalSqliteBindValue::to_ffi_struct((i + 1) as i32, v);
            let ghost old_out = out.deep_view();
            out.push(pair);
            assert(out.deep_view() =~= old_out.push(pair@));
            assert(positional_pairs(vals.take(i + 1)) =~= positional_pairs(vals.take(i as int)).push(
                pair@,
            ));
            i = i + 1;
        }
        assert(vals.take(i as int) =~= vals);
        out
    }
}

} // verus!
