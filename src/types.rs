//! Conversions between native scalars and parameter or column values.
//!
//! Writing: `bool`, `i16` and `i32` are bound as 32-bit integers (`bool` as 1
//! or 0), `i64` as a 64-bit integer, text and bytes as text and blob, a
//! double by its bit pattern. Reading: an integer column may arrive in either
//! width; narrower types take its low bits, and `bool` is true when it is
//! nonzero. A column of another class, or `NULL`, reads as no value.

use vstd::prelude::*;

use crate::bind::{InternalSqliteBindValue, SqliteBindValue};
use crate::value::{copy_bytes, SqlValue, ValueModel};
use crate::wire::{
    bind_list_bytes, fits, lemma_bind_list, lemma_row, pair_fits, parse_bind_list, parse_row,
    row_bytes, row_fits, text_fits, value_fits, BindKeyModel,
};

verus! {

/// Marker for a timestamp with time zone; SQLite stores it as text.
#[derive(Debug, Clone, Copy, Default, PartialEq, Eq, Structural)]
pub struct TimestamptzSqlite;

pub open spec fn i64_of(v: ValueModel) -> Option<i64> {
    match v {
        ValueModel::Int(i) => Some(i as i64),
        ValueModel::Int64(i) => Some(i),
        _ => None,
    }
}

pub open spec fn i32_of(v: ValueModel) -> Option<i32> {
    match i64_of(v) {
        Some(i) => Some(i as i32),
        None => None,
    }
}

pub open spec fn i16_of(v: ValueModel) -> Option<i16> {
    match i64_of(v) {
        Some(i) => Some(i as i16),
        None => None,
    }
}

pub open spec fn bool_of(v: ValueModel) -> Option<bool> {
    match i64_of(v) {
        Some(i) => Some(i != 0),
        None => None,
    }
}

pub open spec fn double_bits_of(v: ValueModel) -> Option<u64> {
    match v {
        ValueModel::Double(d) => Some(d),
        _ => None,
    }
}

pub open spec fn text_of(v: ValueModel) -> Option<Seq<char>> {
    match v {
        ValueModel::Text(t) => Some(t),
        _ => None,
    }
}

pub open spec fn blob_of(v: ValueModel) -> Option<Seq<u8>> {
    match v {
        ValueModel::Blob(b) => Some(b),
        _ => None,
    }
}

pub fn from_sql_i64(v: &SqlValue) -> (r: Option<i64>)
    ensures
        r == i64_of(v@),
{
    match v {
        SqlValue::Int(i) => Some(*i as i64),
        SqlValue::Int64(i) => Some(*i),
        _ => None,
    }
}

pub fn from_sql_i32(v: &SqlValue) -> (r: Option<i32>)
    ensures
        r == i32_of(v@),
{
    match from_sql_i64(v) {
        Some(i) => Some(#[verifier::truncate] (i as i32)),
        None => None,
    }
}

pub fn from_sql_i16(v: &SqlValue) -> (r: Option<i16>)
    ensures
        r == i16_of(v@),
{
    match from_sql_i64(v) {
        Some(i) => Some(#[verifier::truncate] (i as i16)),
        None => None,
    }
}

pub fn from_sql_bool(v: &SqlValue) -> (r: Option<bool>)
    ensures
        r == bool_of(v@),
{
    match from_sql_i64(v) {
        Some(i) => Some(i != 0),
        None => None,
    }
}

/// Reads a double column as its IEEE-754 bit pattern.
pub fn from_sql_double_bits(v: &SqlValue) -> (r: Option<u64>)
    ensures
        r == double_bits_of(v@),
{
    match v {
        SqlValue::Double(d) => Some(*d),
        _ => None,
    }
}

pub fn from_sql_text(v: &SqlValue) -> (r: Option<String>)
    ensures
        match r {
            Some(t) => text_of(v@) == Some(t@),
            None => text_of(v@) is None,
        },
{
    match v {
        SqlValue::Text(t) => Some(t.clone()),
        _ => None,
    }
}

pub fn from_sql_blob(v: &SqlValue) -> (r: Option<Vec<u8>>)
    ensures
        match r {
            Some(b) => blob_of(v@) == Some(b@),
            None => blob_of(v@) is None,
        },
{
    match v {
        SqlValue::Blob(b) => Some(copy_bytes(b)),
        _ => None,
    }
}

pub open spec fn bool_value(b: bool) -> ValueModel {
    ValueModel::Int(
        if b {
            1
        } else {
            0
        },
    )
}

pub fn to_sql_bool<'a>(b: bool) -> (r: SqliteBindValue<'a>)
    ensures
        r@ == bool_value(b),
{
    let i: i32 = if b {
        1
    } else {
        0
    };
    SqliteBindValue { inner: InternalSqliteBindValue::I32(i) }
}

pub fn to_sql_i16<'a>(i: i16) -> (r: SqliteBindValue<'a>)
    ensures
        r@ == ValueModel::Int(i as i32),
{
    SqliteBindValue { inner: InternalSqliteBindValue::I32(i as i32) }
}

pub fn to_sql_i32<'a>(i: i32) -> (r: SqliteBindValue<'a>)
    ensures
        r@ == ValueModel::Int(i),
{
    SqliteBindValue { inner: InternalSqliteBindValue::I32(i) }
}

pub fn to_sql_i64<'a>(i: i64) -> (r: SqliteBindValue<'a>)
    ensures
        r@ == ValueModel::Int64(i),
{
    SqliteBindValue { inner: InternalSqliteBindValue::I64(i) }
}

/// Binds a double given by its IEEE-754 bit pattern.
pub fn to_sql_double_bits<'a>(bits: u64) -> (r: SqliteBindValue<'a>)
    ensures
        r@ == ValueModel::Double(bits),
{
    SqliteBindValue { inner: InternalSqliteBindValue::F64(bits) }
}

pub fn to_sql_str<'a>(s: &'a str) -> (r: SqliteBindValue<'a>)
    ensures
        r@ == ValueModel::Text(s@),
{
    SqliteBindValue { inner: InternalSqliteBindValue::BorrowedString(s) }
}

pub fn to_sql_string<'a>(s: String) -> (r: SqliteBindValue<'a>)
    ensures
        r@ == ValueModel::Text(s@),
{
    SqliteBindValue { inner: InternalSqliteBindValue::String(s) }
}

pub fn to_sql_bytes<'a>(b: &'a [u8]) -> (r: SqliteBindValue<'a>)
    ensures
        r@ == ValueModel::Blob(b@),
{
    SqliteBindValue { inner: InternalSqliteBindValue::BorrowedBinary(b) }
}

/// The column value that the host holds for a bound value: the value in its
/// storage class, an integer of either width as a 64-bit one.
pub open spec fn stored(v: ValueModel) -> ValueModel {
    match v {
        ValueModel::Int(i) => ValueModel::Int64(i as i64),
        _ => v,
    }
}

/// The value that a parameter sent as `v` comes back as: the host reads it
/// from the payload of a bind call, stores it, and sends it in a one-column
/// row, which the guest decodes.
pub open spec fn read_back(v: ValueModel) -> ValueModel {
    let bound = parse_bind_list(bind_list_bytes(seq![(BindKeyModel::Numeric(1), v)])).unwrap()[0].1;
    parse_row(row_bytes(seq![stored(bound)])).unwrap()[0]
}

proof fn lemma_read_back(v: ValueModel)
    requires
        value_fits(v),
    ensures
        read_back(v) == stored(v),
{
    let ps = seq![(BindKeyModel::Numeric(1), v)];
    assert(pair_fits(ps[0]));
    lemma_bind_list(ps);
    let row = seq![stored(v)];
    assert(row_fits(row)) by {
        assert(row[0] == stored(v));
    }
    lemma_row(row);
}

/// A value of each scalar type, sent in a bind call, stored by the host and
/// read back from a one-column row, is the value bound; small integers
/// survive their widening on the wire.
pub proof fn lemma_scalar_round_trip(
    b: bool,
    s: i16,
    i: i32,
    l: i64,
    d: u64,
    t: Seq<char>,
    blob: Seq<u8>,
)
    requires
        text_fits(t),
        fits(blob.len()),
    ensures
        bool_of(read_back(bool_value(b))) == Some(b),
        i16_of(read_back(ValueModel::Int(s as i32))) == Some(s),
        i32_of(read_back(ValueModel::Int(i))) == Some(i),
        i64_of(read_back(ValueModel::Int64(l))) == Some(l),
        double_bits_of(read_back(ValueModel::Double(d))) == Some(d),
        text_of(read_back(ValueModel::Text(t))) == Some(t),
        blob_of(read_back(ValueModel::Blob(blob))) == Some(blob),
{
    lemma_read_back(bool_value(b));
    lemma_read_back(ValueModel::Int(s as i32));
    lemma_read_back(ValueModel::Int(i));
    lemma_read_back(ValueModel::Int64(l));
    lemma_read_back(ValueModel::Double(d));
    lemma_read_back(ValueModel::Text(t));
    lemma_read_back(ValueModel::Blob(blob));
    assert((((s as i32) as i64) as i16) == s) by (bit_vector);
    assert(((i as i64) as i32) == i) by (bit_vector);
    assert(((1i32 as i64) != 0) && ((0i32 as i64) == 0)) by (bit_vector);
}

/// `NULL` is bound as the `Null` wire value under any key, the host reads it
/// back as such from the bind payload, and it reads back as no value for
/// every scalar type, never as a default.
pub proof fn lemma_null_round_trip(key: usize)
    ensures
        parse_bind_list(bind_list_bytes(seq![(BindKeyModel::Numeric(key), ValueModel::Null)]))
            == Some(seq![(BindKeyModel::Numeric(key), ValueModel::Null)]),
        read_back(ValueModel::Null) == ValueModel::Null,
        bool_of(read_back(ValueModel::Null)) is None,
        i16_of(read_back(ValueModel::Null)) is None,
        i32_of(read_back(ValueModel::Null)) is None,
        i64_of(read_back(ValueModel::Null)) is None,
        double_bits_of(read_back(ValueModel::Null)) is None,
        text_of(read_back(ValueModel::Null)) is None,
        blob_of(read_back(ValueModel::Null)) is None,
{
    let ps = seq![(BindKeyModel::Numeric(key), ValueModel::Null)];
    assert(pair_fits(ps[0]));
    lemma_bind_list(ps);
    lemma_read_back(ValueModel::Null);
}

} // verus!
