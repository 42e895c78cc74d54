//! The wire format of the host protocol.
//!
//! Every payload is little-endian and self-describing:
//! - a `u32` takes four bytes, a `u64` (also every length and count) eight;
//! - a byte string or a text is its length in bytes followed by the bytes
//!   (a text's bytes are its UTF-8 encoding);
//! - a [`ValueModel`] is a `u32` tag (`Null` 0, `Blob` 1, `Text` 2, `Double` 3,
//!   `Int` 4, `Int64` 5) followed by its payload, integers in two's complement;
//! - a sequence is its element count followed by the elements;
//! - an optional field is one byte, 0 for absent or 1 for present, followed
//!   by the value when present.
//!
//! A decoder accepts exactly the encodings of well-formed values and rejects
//! everything else (truncated input, trailing bytes, unknown tags, invalid
//! UTF-8) with [`DecodeError`].

use vstd::bytes::*;
use vstd::prelude::*;
use vstd::slice::*;
use vstd::utf8::*;

use crate::value::{SqlValue, ValueModel};

verus! {

broadcast use vstd::utf8::encode_utf8_valid_utf8, vstd::utf8::encode_utf8_decode_utf8;

/// A payload that is not the encoding of the expected value.
#[derive(PartialEq, Eq, Structural, Debug, Clone, Copy)]
pub struct DecodeError;

pub open spec fn u32_bytes(n: u32) -> Seq<u8> {
    spec_u32_to_le_bytes(n)
}

pub open spec fn u64_bytes(n: u64) -> Seq<u8> {
    spec_u64_to_le_bytes(n)
}

/// A byte string preceded by its length.
pub open spec fn len_prefixed(b: Seq<u8>) -> Seq<u8> {
    u64_bytes(b.len() as u64) + b
}

pub open spec fn text_bytes(t: Seq<char>) -> Seq<u8> {
    len_prefixed(encode_utf8(t))
}

pub open spec fn value_bytes(v: ValueModel) -> Seq<u8> {
    match v {
        ValueModel::Null => u32_bytes(0),
        ValueModel::Blob(b) => u32_bytes(1) + len_prefixed(b),
        ValueModel::Text(t) => u32_bytes(2) + text_bytes(t),
        ValueModel::Double(d) => u32_bytes(3) + u64_bytes(d),
        ValueModel::Int(i) => u32_bytes(4) + u32_bytes(i as u32),
        ValueModel::Int64(i) => u32_bytes(5) + u64_bytes(i as u64),
    }
}

/// A length that the format can carry.
pub open spec fn fits(n: nat) -> bool {
    n <= u64::MAX
}

pub open spec fn text_fits(t: Seq<char>) -> bool {
    fits(encode_utf8(t).len())
}

/// A value whose encoding exists: its blob or text length fits in a `u64`.
pub open spec fn value_fits(v: ValueModel) -> bool {
    match v {
        ValueModel::Blob(b) => fits(b.len()),
        ValueModel::Text(t) => text_fits(t),
        _ => true,
    }
}

pub open spec fn parse_u32(s: Seq<u8>) -> Option<u32> {
    if s.len() >= 4 {
        Some(spec_u32_from_le_bytes(s.take(4)))
    } else {
        None
    }
}

pub open spec fn parse_u64(s: Seq<u8>) -> Option<u64> {
    if s.len() >= 8 {
        Some(spec_u64_from_le_bytes(s.take(8)))
    } else {
        None
    }
}

/// Reads a length-prefixed byte string; yields it and the number of bytes read.
pub open spec fn parse_len_prefixed(s: Seq<u8>) -> Option<(Seq<u8>, nat)> {
    match parse_u64(s) {
        Some(n) => if n <= s.len() - 8 {
            Some((s.subrange(8, 8 + n), (8 + n) as nat))
        } else {
            None
        },
        None => None,
    }
}

pub open spec fn parse_text(s: Seq<u8>) -> Option<(Seq<char>, nat)> {
    match parse_len_prefixed(s) {
        Some((b, n)) => if valid_utf8(b) {
            Some((decode_utf8(b), n))
        } else {
            None
        },
        None => None,
    }
}

pub open spec fn parse_value(s: Seq<u8>) -> Option<(ValueModel, nat)> {
    match parse_u32(s) {
        Some(tag) => {
            let r = s.skip(4);
            if tag == 0 {
                Some((ValueModel::Null, 4))
            } else if tag == 1 {
                match parse_len_prefixed(r) {
                    Some((b, n)) => Some((ValueModel::Blob(b), 4 + n)),
                    None => None,
                }
            } else if tag == 2 {
                match parse_text(r) {
                    Some((t, n)) => Some((ValueModel::Text(t), 4 + n)),
                    None => None,
                }
            } else if tag == 3 {
                match parse_u64(r) {
                    Some(d) => Some((ValueModel::Double(d), 12)),
                    None => None,
                }
            } else if tag == 4 {
                match parse_u32(r) {
                    Some(x) => Some((ValueModel::Int(x as i32), 8)),
                    None => None,
                }
            } else if tag == 5 {
                match parse_u64(r) {
                    Some(x) => Some((ValueModel::Int64(x as i64), 12)),
                    None => None,
                }
            } else {
                None
            }
        },
        None => None,
    }
}

proof fn lemma_u32(n: u32, rest: Seq<u8>)
    ensures
        u32_bytes(n).len() == 4,
        parse_u32(u32_bytes(n) + rest) == Some(n),
        (u32_bytes(n) + rest).skip(4) == rest,
{
    lemma_auto_spec_u32_to_from_le_bytes();
    assert((u32_bytes(n) + rest).take(4) =~= u32_bytes(n));
    assert((u32_bytes(n) + rest).skip(4) =~= rest);
}

proof fn lemma_u64(n: u64, rest: Seq<u8>)
    ensures
        u64_bytes(n).len() == 8,
        parse_u64(u64_bytes(n) + rest) == Some(n),
        (u64_bytes(n) + rest).skip(8) == rest,
{
    lemma_auto_spec_u64_to_from_le_bytes();
    assert((u64_bytes(n) + rest).take(8) =~= u64_bytes(n));
    assert((u64_bytes(n) + rest).skip(8) =~= rest);
}

proof fn lemma_u32_sound(s: Seq<u8>)
    requires
        s.len() >= 4,
    ensures
        u32_bytes(spec_u32_from_le_bytes(s.take(4))) == s.take(4),
{
    lemma_auto_spec_u32_to_from_le_bytes();
}

proof fn lemma_u64_sound(s: Seq<u8>)
    requires
        s.len() >= 8,
    ensures
        u64_bytes(spec_u64_from_le_bytes(s.take(8))) == s.take(8),
{
    lemma_auto_spec_u64_to_from_le_bytes();
}

proof fn lemma_len_prefixed(b: Seq<u8>, rest: Seq<u8>)
    requires
        fits(b.len()),
    ensures
        parse_len_prefixed(len_prefixed(b) + rest) == Some((b, len_prefixed(b).len())),
        len_prefixed(b).len() == 8 + b.len(),
{
    let s = len_prefixed(b) + rest;
    lemma_u64(b.len() as u64, b + rest);
    assert(s =~= u64_bytes(b.len() as u64) + (b + rest));
    assert(s.subrange(8, 8 + b.len() as int) =~= b);
}

proof fn lemma_len_prefixed_sound(s: Seq<u8>)
    requires
        parse_len_prefixed(s) is Some,
    ensures
        ({
            let (b, n) = parse_len_prefixed(s).unwrap();
            n <= s.len() && s.take(n as int) == len_prefixed(b)
        }),
{
    let (b, n) = parse_len_prefixed(s).unwrap();
    lemma_u64_sound(s);
    assert(s.take(n as int) =~= s.take(8) + b);
}

proof fn lemma_text(t: Seq<char>, rest: Seq<u8>)
    requires
        text_fits(t),
    ensures
        parse_text(text_bytes(t) + rest) == Some((t, text_bytes(t).len())),
{
    lemma_len_prefixed(encode_utf8(t), rest);
}

proof fn lemma_text_sound(s: Seq<u8>)
    requires
        parse_text(s) is Some,
    ensures
        ({
            let (t, n) = parse_text(s).unwrap();
            n <= s.len() && s.take(n as int) == text_bytes(t) && text_fits(t)
        }),
{
    lemma_len_prefixed_sound(s);
    let (b, n) = parse_len_prefixed(s).unwrap();
    decode_utf8_encode_utf8(b);
}

/// Decoding the encoding of a value, whatever follows it, gives back the value.
pub proof fn lemma_value(v: ValueModel, rest: Seq<u8>)
    requires
        value_fits(v),
    ensures
        parse_value(value_bytes(v) + rest) == Some((v, value_bytes(v).len())),
{
    let s = value_bytes(v) + rest;
    match v {
        ValueModel::Null => {
            lemma_u32(0, rest);
        },
        ValueModel::Blob(b) => {
            lemma_u32(1, len_prefixed(b) + rest);
            assert(s =~= u32_bytes(1) + (len_prefixed(b) + rest));
            lemma_len_prefixed(b, rest);
        },
        ValueModel::Text(t) => {
            lemma_u32(2, text_bytes(t) + rest);
            assert(s =~= u32_bytes(2) + (text_bytes(t) + rest));
            lemma_text(t, rest);
        },
        ValueModel::Double(d) => {
            lemma_u32(3, u64_bytes(d) + rest);
            assert(s =~= u32_bytes(3) + (u64_bytes(d) + rest));
            lemma_u64(d, rest);
        },
        ValueModel::Int(i) => {
            lemma_u32(4, u32_bytes(i as u32) + rest);
            assert(s =~= u32_bytes(4) + (u32_bytes(i as u32) + rest));
            lemma_u32(i as u32, rest);
            assert(((i as u32) as i32) == i) by (bit_vector);
        },
        ValueModel::Int64(i) => {
            lemma_u32(5, u64_bytes(i as u64) + rest);
            assert(s =~= u32_bytes(5) + (u64_bytes(i as u64) + rest));
            lemma_u64(i as u64, rest);
            assert(((i as u64) as i64) == i) by (bit_vector);
        },
    }
}

/// What the value decoder accepts is the encoding of the value it returns.
pub proof fn lemma_value_sound(s: Seq<u8>)
    requires
        parse_value(s) is Some,
    ensures
        ({
            let (v, n) = parse_value(s).unwrap();
            n <= s.len() && s.take(n as int) == value_bytes(v) && value_fits(v)
        }),
{
    let (v, n) = parse_value(s).unwrap();
    let tag = parse_u32(s).unwrap();
    let r = s.skip(4);
    lemma_u32_sound(s);
    match v {
        ValueModel::Null => {},
        ValueModel::Blob(b) => {
            lemma_len_prefixed_sound(r);
            assert(s.take(n as int) =~= s.take(4) + r.take(n - 4));
        },
        ValueModel::Text(t) => {
            lemma_text_sound(r);
            assert(s.take(n as int) =~= s.take(4) + r.take(n - 4));
        },
        ValueModel::Double(d) => {
            lemma_u64_sound(r);
            assert(s.take(n as int) =~= s.take(4) + r.take(8));
        },
        ValueModel::Int(i) => {
            lemma_u32_sound(r);
            let x = spec_u32_from_le_bytes(r.take(4));
            assert(((x as i32) as u32) == x) by (bit_vector);
            assert(s.take(n as int) =~= s.take(4) + r.take(4));
        },
        ValueModel::Int64(i) => {
            lemma_u64_sound(r);
            let x = spec_u64_from_le_bytes(r.take(8));
            assert(((x as i64) as u64) == x) by (bit_vector);
            assert(s.take(n as int) =~= s.take(4) + r.take(8));
        },
    }
}


pub open spec fn values_bytes(vs: Seq<ValueModel>) -> Seq<u8>
    decreases vs.len(),
{
    if vs.len() == 0 {
        Seq::empty()
    } else {
        values_bytes(vs.drop_last()) + value_bytes(vs.last())
    }
}

/// The payload of one result row.
pub open spec fn row_bytes(vs: Seq<ValueModel>) -> Seq<u8> {
    u64_bytes(vs.len() as u64) + values_bytes(vs)
}

/// A row whose encoding exists.
pub open spec fn row_fits(vs: Seq<ValueModel>) -> bool {
    fits(vs.len()) && forall|i: int| 0 <= i < vs.len() ==> value_fits(#[trigger] vs[i])
}

pub open spec fn parse_values(s: Seq<u8>, count: nat) -> Option<(Seq<ValueModel>, nat)>
    decreases count,
{
    if count == 0 {
        Some((Seq::empty(), 0))
    } else {
        match parse_values(s, (count - 1) as nat) {
            Some((vs, n)) => match parse_value(s.skip(n as int)) {
                Some((v, m)) => Some((vs.push(v), n + m)),
                None => None,
            },
            None => None,
        }
    }
}

pub open spec fn parse_row(s: Seq<u8>) -> Option<Seq<ValueModel>> {
    match parse_u64(s) {
        Some(count) => match parse_values(s.skip(8), count as nat) {
            Some((vs, n)) => if 8 + n == s.len() {
                Some(vs)
            } else {
                None
            },
            None => None,
        },
        None => None,
    }
}

proof fn lemma_values_stop(s: Seq<u8>, k: nat, c: nat)
    requires
        k <= c,
        parse_values(s, k) is None,
    ensures
        parse_values(s, c) is None,
    decreases c - k,
{
    if k < c {
        lemma_values_stop(s, k + 1, c);
    }
}

proof fn lemma_values(vs: Seq<ValueModel>, rest: Seq<u8>)
    requires
        forall|i: int| 0 <= i < vs.len() ==> value_fits(#[trigger] vs[i]),
    ensures
        parse_values(values_bytes(vs) + rest, vs.len()) == Some((vs, values_bytes(vs).len())),
    decreases vs.len(),
{
    if vs.len() > 0 {
        let init = vs.drop_last();
        let last = vs.last();
        assert(value_fits(vs[vs.len() - 1]));
        lemma_values(init, value_bytes(last) + rest);
        let s = values_bytes(vs) + rest;
        assert(s =~= values_bytes(init) + (value_bytes(last) + rest));
        assert(s.skip(values_bytes(init).len() as int) =~= value_bytes(last) + rest);
        lemma_value(last, rest);
        assert(init.push(last) =~= vs);
    }
}

proof fn lemma_values_sound(s: Seq<u8>, count: nat)
    requires
        parse_values(s, count) is Some,
    ensures
        ({
            let (vs, n) = parse_values(s, count).unwrap();
            &&& vs.len() == count
            &&& n <= s.len()
            &&& s.take(n as int) == values_bytes(vs)
            &&& forall|i: int| 0 <= i < vs.len() ==> value_fits(#[trigger] vs[i])
        }),
    decreases count,
{
    if count > 0 {
        lemma_values_sound(s, (count - 1) as nat);
        let (vs0, n0) = parse_values(s, (count - 1) as nat).unwrap();
        let r = s.skip(n0 as int);
        lemma_value_sound(r);
        let (v, m) = parse_value(r).unwrap();
        let vs = vs0.push(v);
        assert(vs.drop_last() =~= vs0);
        assert(s.take((n0 + m) as int) =~= s.take(n0 as int) + r.take(m as int));
        assert forall|i: int| 0 <= i < vs.len() implies value_fits(#[trigger] vs[i]) by {
            if i < vs0.len() {
                assert(vs[i] == vs0[i]);
            }
        }
    }
}

/// A row payload decodes to exactly the row it encodes.
pub proof fn lemma_row(vs: Seq<ValueModel>)
    requires
        row_fits(vs),
    ensures
        parse_row(row_bytes(vs)) == Some(vs),
{
    let s = row_bytes(vs);
    lemma_u64(vs.len() as u64, values_bytes(vs));
    lemma_values(vs, Seq::empty());
    assert(values_bytes(vs) + Seq::empty() =~= values_bytes(vs));
}

/// Whatever the row decoder accepts is the encoding of the row it returns.
pub proof fn lemma_row_sound(s: Seq<u8>)
    requires
        parse_row(s) is Some,
    ensures
        row_bytes(parse_row(s).unwrap()) == s,
        row_fits(parse_row(s).unwrap()),
{
    let count = parse_u64(s).unwrap();
    lemma_values_sound(s.skip(8), count as nat);
    lemma_u64_sound(s);
    let (vs, n) = parse_values(s.skip(8), count as nat).unwrap();
    assert(s =~= s.take(8) + s.skip(8).take(n as int));
}

/// A payload that the row decoder rejects encodes no row.
pub proof fn lemma_row_rejected(s: Seq<u8>)
    requires
        parse_row(s) is None,
    ensures
        forall|vs: Seq<ValueModel>| row_fits(vs) ==> row_bytes(vs) != s,
{
    assert forall|vs: Seq<ValueModel>| row_fits(vs) implies row_bytes(vs) != s by {
        lemma_row(vs);
    }
}

pub open spec fn texts_bytes(ts: Seq<Seq<char>>) -> Seq<u8>
    decreases ts.len(),
{
    if ts.len() == 0 {
        Seq::empty()
    } else {
        texts_bytes(ts.drop_last()) + text_bytes(ts.last())
    }
}

/// The payload of a list of column names.
pub open spec fn names_bytes(ts: Seq<Seq<char>>) -> Seq<u8> {
    u64_bytes(ts.len() as u64) + texts_bytes(ts)
}

pub open spec fn names_fit(ts: Seq<Seq<char>>) -> bool {
    fits(ts.len()) && forall|i: int| 0 <= i < ts.len() ==> text_fits(#[trigger] ts[i])
}

pub open spec fn parse_texts(s: Seq<u8>, count: nat) -> Option<(Seq<Seq<char>>, nat)>
    decreases count,
{
    if count == 0 {
        Some((Seq::empty(), 0))
    } else {
        match parse_texts(s, (count - 1) as nat) {
            Some((ts, n)) => match parse_text(s.skip(n as int)) {
                Some((t, m)) => Some((ts.push(t), n + m)),
                None => None,
            },
            None => None,
        }
    }
}

pub open spec fn parse_names(s: Seq<u8>) -> Option<Seq<Seq<char>>> {
    match parse_u64(s) {
        Some(count) => match parse_texts(s.skip(8), count as nat) {
            Some((ts, n)) => if 8 + n == s.len() {
                Some(ts)
            } else {
                None
            },
            None => None,
        },
        None => None,
    }
}

proof fn lemma_texts(ts: Seq<Seq<char>>, rest: Seq<u8>)
    requires
        forall|i: int| 0 <= i < ts.len() ==> text_fits(#[trigger] ts[i]),
    ensures
        parse_texts(texts_bytes(ts) + rest, ts.len()) == Some((ts, texts_bytes(ts).len())),
    decreases ts.len(),
{
    if ts.len() > 0 {
        let init = ts.drop_last();
        let last = ts.last();
        assert(text_fits(ts[ts.len() - 1]));
        lemma_texts(init, text_bytes(last) + rest);
        let s = texts_bytes(ts) + rest;
        assert(s =~= texts_bytes(init) + (text_bytes(last) + rest));
        assert(s.skip(texts_bytes(init).len() as int) =~= text_bytes(last) + rest);
        lemma_text(last, rest);
        assert(init.push(last) =~= ts);
    }
}

proof fn lemma_texts_sound(s: Seq<u8>, count: nat)
    requires
        parse_texts(s, count) is Some,
    ensures
        ({
            let (ts, n) = parse_texts(s, count).unwrap();
            &&& ts.len() == count
            &&& n <= s.len()
            &&& s.take(n as int) == texts_bytes(ts)
            &&& forall|i: int| 0 <= i < ts.len() ==> text_fits(#[trigger] ts[i])
        }),
    decreases count,
{
    if count > 0 {
        lemma_texts_sound(s, (count - 1) as nat);
        let (ts0, n0) = parse_texts(s, (count - 1) as nat).unwrap();
        let r = s.skip(n0 as int);
        lemma_text_sound(r);
        let (t, m) = parse_text(r).unwrap();
        let ts = ts0.push(t);
        assert(ts.drop_last() =~= ts0);
        assert(s.take((n0 + m) as int) =~= s.take(n0 as int) + r.take(m as int));
        assert forall|i: int| 0 <= i < ts.len() implies text_fits(#[trigger] ts[i]) by {
            if i < ts0.len() {
                assert(ts[i] == ts0[i]);
            }
        }
    }
}

/// A names payload decodes to exactly the names it encodes.
pub proof fn lemma_names(ts: Seq<Seq<char>>)
    requires
        names_fit(ts),
    ensures
        parse_names(names_bytes(ts)) == Some(ts),
{
    lemma_u64(ts.len() as u64, texts_bytes(ts));
    lemma_texts(ts, Seq::empty());
    assert(texts_bytes(ts) + Seq::empty() =~= texts_bytes(ts));
}

/// Whatever the names decoder accepts is the encoding of the names it returns.
pub proof fn lemma_names_sound(s: Seq<u8>)
    requires
        parse_names(s) is Some,
    ensures
        names_bytes(parse_names(s).unwrap()) == s,
        names_fit(parse_names(s).unwrap()),
{
    let count = parse_u64(s).unwrap();
    lemma_texts_sound(s.skip(8), count as nat);
    lemma_u64_sound(s);
    let (ts, n) = parse_texts(s.skip(8), count as nat).unwrap();
    assert(s =~= s.take(8) + s.skip(8).take(n as int));
}


/// Relies on `String::from_utf8`: it succeeds exactly on valid UTF-8, and the
/// string then holds the characters that the bytes encode.
#[verifier::external_body]
fn string_from_utf8(b: Vec<u8>) -> (r: Option<String>)
    ensures
        match r {
            Some(t) => valid_utf8(b@) && t@ == decode_utf8(b@),
            None => !valid_utf8(b@),
        },
{
    String::from_utf8(b).ok()
}

fn read_u32(b: &[u8], pos: usize) -> (r: Option<u32>)
    requires
        pos <= b@.len(),
    ensures
        r == parse_u32(b@.skip(pos as int)),
{
    if b.len() - pos >= 4 {
        let w = slice_subrange(b, pos, pos + 4);
        assert(w@ =~= b@.skip(pos as int).take(4));
        Some(u32_from_le_bytes(w))
    } else {
        None
    }
}

fn read_u64(b: &[u8], pos: usize) -> (r: Option<u64>)
    requires
        pos <= b@.len(),
    ensures
        r == parse_u64(b@.skip(pos as int)),
{
    if b.len() - pos >= 8 {
        let w = slice_subrange(b, pos, pos + 8);
        assert(w@ =~= b@.skip(pos as int).take(8));
        Some(u64_from_le_bytes(w))
    } else {
        None
    }
}

fn read_len_prefixed(b: &[u8], pos: usize) -> (r: Option<(Vec<u8>, usize)>)
    requires
        pos <= b@.len(),
    ensures
        match r {
            Some((v, n)) => parse_len_prefixed(b@.skip(pos as int)) == Some((v@, n as nat)) && n <= b@.len()
                - pos,
            None => parse_len_prefixed(b@.skip(pos as int)) is None,
        },
{
    match read_u64(b, pos) {
        Some(n) => {
            if n <= (b.len() - pos - 8) as u64 {
                let start = pos + 8;
                let w = slice_subrange(b, start, start + n as usize);
                assert(w@ =~= b@.skip(pos as int).subrange(8, 8 + n));
                Some((slice_to_vec(w), 8 + n as usize))
            } else {
                None
            }
        },
        None => None,
    }
}

fn read_text(b: &[u8], pos: usize) -> (r: Option<(String, usize)>)
    requires
        pos <= b@.len(),
    ensures
        match r {
            Some((t, n)) => parse_text(b@.skip(pos as int)) == Some((t@, n as nat)) && n <= b@.len() - pos,
            None => parse_text(b@.skip(pos as int)) is None,
        },
{
    match read_len_prefixed(b, pos) {
        Some((v, n)) => match string_from_utf8(v) {
            Some(t) => Some((t, n)),
            None => None,
        },
        None => None,
    }
}

fn read_value(b: &[u8], pos: usize) -> (r: Option<(SqlValue, usize)>)
    requires
        pos <= b@.len(),
    ensures
        match r {
            Some((v, n)) => parse_value(b@.skip(pos as int)) == Some((v@, n as nat)) && n <= b@.len() - pos,
            None => parse_value(b@.skip(pos as int)) is None,
        },
{
    let len = b.len();
    let rt = read_u32(b, pos);
    if rt.is_none() {
        return None;
    }
    let tag = rt.unwrap();
    assert(b@.skip(pos as int).len() == b@.len() - pos);
    let p = pos + 4;
    assert(b@.skip(p as int) =~= b@.skip(pos as int).skip(4));
    if tag == 0 {
        Some((SqlValue::Null, 4))
    } else if tag == 1 {
        match read_len_prefixed(b, p) {
            Some((v, n)) => Some((SqlValue::Blob(v), 4 + n)),
            None => None,
        }
    } else if tag == 2 {
        match read_text(b, p) {
            Some((t, n)) => Some((SqlValue::Text(t), 4 + n)),
            None => None,
        }
    } else if tag == 3 {
        match read_u64(b, p) {
            Some(d) => Some((SqlValue::Double(d), 12)),
            None => None,
        }
    } else if tag == 4 {
        match read_u32(b, p) {
            Some(x) => Some((SqlValue::Int(#[verifier::truncate] (x as i32)), 8)),
            None => None,
        }
    } else if tag == 5 {
        match read_u64(b, p) {
            Some(x) => Some((SqlValue::Int64(#[verifier::truncate] (x as i64)), 12)),
            None => None,
        }
    } else {
        None
    }
}

/// Decodes the payload of one result row.
///
/// Succeeds exactly when the bytes are the encoding of some row, and then
/// returns that row.
pub fn decode_row(b: &[u8]) -> (r: Result<Vec<SqlValue>, DecodeError>)
    ensures
        match r {
            Ok(row) => row_bytes(row.deep_view()) == b@ && row_fits(row.deep_view()),
            Err(_) => forall|vs: Seq<ValueModel>| row_fits(vs) ==> row_bytes(vs) != b@,
        },
        r is Ok <==> parse_row(b@) is Some,
{
    assert(b@.skip(0) =~= b@);
    let rc = read_u64(b, 0);
    if rc.is_none() {
        proof {
            lemma_row_rejected(b@);
        }
        return Err(DecodeError);
    }
    let count = rc.unwrap();
    let ghost s = b@.skip(8);
    let len = b.len();
    let mut row: Vec<SqlValue> = Vec::new();
    let mut pos: usize = 8;
    let mut i: u64 = 0;
    while i < count
        invariant
            8 <= pos <= b@.len(),
            len == b@.len(),
            i <= count,
            s == b@.skip(8),
            parse_u64(b@) == Some(count),
            parse_values(s, i as nat) == Some((row.deep_view(), (pos - 8) as nat)),
        decreases count - i,
    {
        match read_value(b, pos) {
            Some((v, n)) => {
                assert(s.skip(pos - 8) =~= b@.skip(pos as int));
                proof {
                    lemma_value_sound(b@.skip(pos as int));
                }
                let ghost old_row = row.deep_view();
                row.push(v);
                assert(row.deep_view() =~= old_row.push(v@));
                pos = pos + n;
                i = i + 1;
            },
            None => {
                assert(s.skip(pos - 8) =~= b@.skip(pos as int));
                proof {
                    lemma_values_stop(s, (i + 1) as nat, count as nat);
                    lemma_row_rejected(b@);
                }
                return Err(DecodeError);
            },
        }
    }
    if pos == b.len() {
        proof {
            lemma_row_sound(b@);
        }
        Ok(row)
    } else {
        proof {
            lemma_row_rejected(b@);
        }
        Err(DecodeError)
    }
}

/// A payload that the names decoder rejects encodes no list of names.
pub proof fn lemma_names_rejected(s: Seq<u8>)
    requires
        parse_names(s) is None,
    ensures
        forall|ts: Seq<Seq<char>>| names_fit(ts) ==> names_bytes(ts) != s,
{
    assert forall|ts: Seq<Seq<char>>| names_fit(ts) implies names_bytes(ts) != s by {
        lemma_names(ts);
    }
}

proof fn lemma_texts_stop(s: Seq<u8>, k: nat, c: nat)
    requires
        k <= c,
        parse_texts(s, k) is None,
    ensures
        parse_texts(s, c) is None,
    decreases c - k,
{
    if k < c {
        lemma_texts_stop(s, k + 1, c);
    }
}

/// Decodes the payload of a statement's column names.
///
/// Succeeds exactly when the bytes are the encoding of some list of names,
/// and then returns that list.
pub fn decode_names(b: &[u8]) -> (r: Result<Vec<String>, DecodeError>)
    ensures
        match r {
            Ok(names) => names_bytes(names.deep_view()) == b@ && names_fit(names.deep_view()),
            Err(_) => forall|ts: Seq<Seq<char>>| names_fit(ts) ==> names_bytes(ts) != b@,
        },
        r is Ok <==> parse_names(b@) is Some,
{
    assert(b@.skip(0) =~= b@);
    let rc = read_u64(b, 0);
    if rc.is_none() {
        proof {
            lemma_names_rejected(b@);
        }
        return Err(DecodeError);
    }
    let count = rc.unwrap();
    let ghost s = b@.skip(8);
    let len = b.len();
    let mut names: Vec<String> = Vec::new();
    let mut pos: usize = 8;
    let mut i: u64 = 0;
    while i < count
        invariant
            8 <= pos <= b@.len(),
            len == b@.len(),
            i <= count,
            s == b@.skip(8),
            parse_u64(b@) == Some(count),
            parse_texts(s, i as nat) == Some((names.deep_view(), (pos - 8) as nat)),
        decreases count - i,
    {
        assert(s.skip(pos - 8) =~= b@.skip(pos as int));
        match read_text(b, pos) {
            Some((t, n)) => {
                let ghost old_names = names.deep_view();
                names.push(t);
                assert(names.deep_view() =~= old_names.push(t@));
                pos = pos + n;
                i = i + 1;
            },
            None => {
                proof {
                    lemma_texts_stop(s, (i + 1) as nat, count as nat);
                    lemma_names_rejected(b@);
                }
                return Err(DecodeError);
            },
        }
    }
    if pos == b.len() {
        proof {
            lemma_names_sound(b@);
        }
        Ok(names)
    } else {
        proof {
            lemma_names_rejected(b@);
        }
        Err(DecodeError)
    }
}

/// The error record that the host keeps for a connection: an optional
/// extended result code and an optional message.
pub struct HostError {
    pub code: Option<u32>,
    pub message: Option<String>,
}

pub struct HostErrorModel {
    pub code: Option<u32>,
    pub message: Option<Seq<char>>,
}

impl View for HostError {
    type V = HostErrorModel;

    open spec fn view(&self) -> HostErrorModel {
        HostErrorModel {
            code: self.code,
            message: match self.message {
                Some(m) => Some(m@),
                None => None,
            },
        }
    }
}

pub open spec fn host_error_bytes(e: HostErrorModel) -> Seq<u8> {
    (match e.code {
        Some(c) => seq![1u8] + u32_bytes(c),
        None => seq![0u8],
    }) + (match e.message {
        Some(m) => seq![1u8] + text_bytes(m),
        None => seq![0u8],
    })
}

pub open spec fn host_error_fits(e: HostErrorModel) -> bool {
    match e.message {
        Some(m) => text_fits(m),
        None => true,
    }
}

/// Reads an optional code; yields it and the number of bytes read.
pub open spec fn parse_opt_code(s: Seq<u8>) -> Option<(Option<u32>, nat)> {
    if s.len() >= 1 && s[0] == 0 {
        Some((None, 1))
    } else if s.len() >= 1 && s[0] == 1 {
        match parse_u32(s.skip(1)) {
            Some(c) => Some((Some(c), 5)),
            None => None,
        }
    } else {
        None
    }
}

/// Reads an optional message that must end the payload.
pub open spec fn parse_opt_message(s: Seq<u8>) -> Option<Option<Seq<char>>> {
    if s.len() == 1 && s[0] == 0 {
        Some(None)
    } else if s.len() >= 1 && s[0] == 1 {
        match parse_text(s.skip(1)) {
            Some((m, n)) => if 1 + n == s.len() {
                Some(Some(m))
            } else {
                None
            },
            None => None,
        }
    } else {
        None
    }
}

pub open spec fn parse_host_error(s: Seq<u8>) -> Option<HostErrorModel> {
    match parse_opt_code(s) {
        Some((code, n)) => match parse_opt_message(s.skip(n as int)) {
            Some(message) => Some(HostErrorModel { code, message }),
            None => None,
        },
        None => None,
    }
}

/// An error payload decodes to exactly the record it encodes.
pub proof fn lemma_host_error(e: HostErrorModel)
    requires
        host_error_fits(e),
    ensures
        parse_host_error(host_error_bytes(e)) == Some(e),
{
    let s = host_error_bytes(e);
    let tail = match e.message {
        Some(m) => seq![1u8] + text_bytes(m),
        None => seq![0u8],
    };
    let n: int = match e.code {
        Some(c) => {
            lemma_u32(c, tail);
            assert(s.skip(1) =~= u32_bytes(c) + tail);
            5
        },
        None => 1,
    };
    assert(s.skip(n) =~= tail);
    match e.message {
        Some(m) => {
            lemma_text(m, Seq::empty());
            assert(tail.skip(1) =~= text_bytes(m) + Seq::empty());
        },
        None => {},
    }
}

/// Whatever the error decoder accepts is the encoding of the record it returns.
pub proof fn lemma_host_error_sound(s: Seq<u8>)
    requires
        parse_host_error(s) is Some,
    ensures
        host_error_bytes(parse_host_error(s).unwrap()) == s,
        host_error_fits(parse_host_error(s).unwrap()),
{
    let (code, n) = parse_opt_code(s).unwrap();
    let head = match code {
        Some(c) => seq![1u8] + u32_bytes(c),
        None => seq![0u8],
    };
    if s[0] == 1 {
        lemma_u32_sound(s.skip(1));
        assert(s.take(5) =~= seq![s[0]] + s.skip(1).take(4));
    }
    assert(s.take(n as int) =~= head);
    let r = s.skip(n as int);
    let message = parse_opt_message(r).unwrap();
    let tail = match message {
        Some(m) => seq![1u8] + text_bytes(m),
        None => seq![0u8],
    };
    if r[0] == 1 {
        lemma_text_sound(r.skip(1));
        let (m, k) = parse_text(r.skip(1)).unwrap();
        assert(r =~= seq![r[0]] + r.skip(1).take(k as int));
    }
    assert(r =~= tail);
    assert(s =~= s.take(n as int) + r);
}

/// A payload that the error decoder rejects encodes no error record.
pub proof fn lemma_host_error_rejected(s: Seq<u8>)
    requires
        parse_host_error(s) is None,
    ensures
        forall|e: HostErrorModel| host_error_fits(e) ==> host_error_bytes(e) != s,
{
    assert forall|e: HostErrorModel| host_error_fits(e) implies host_error_bytes(e) != s by {
        lemma_host_error(e);
    }
}

/// Decodes the payload of a connection's last error.
///
/// Succeeds exactly when the bytes are the encoding of some error record,
/// and then returns that record.
pub fn decode_host_error(b: &[u8]) -> (r: Result<HostError, DecodeError>)
    ensures
        match r {
            Ok(e) => host_error_bytes(e@) == b@ && host_error_fits(e@),
            Err(_) => forall|e: HostErrorModel| host_error_fits(e) ==> host_error_bytes(e) != b@,
        },
        r is Ok <==> parse_host_error(b@) is Some,
{
    let len = b.len();
    let mut pos: usize;
    let code: Option<u32>;
    if len >= 1 && b[0] == 0 {
        code = None;
        pos = 1;
    } else if len >= 1 && b[0] == 1 {
        match read_u32(b, 1) {
            Some(c) => {
                code = Some(c);
                pos = 5;
            },
            None => {
                proof {
                    lemma_host_error_rejected(b@);
                }
                return Err(DecodeError);
            },
        }
    } else {
        proof {
            lemma_host_error_rejected(b@);
        }
        return Err(DecodeError);
    }
    assert(parse_opt_code(b@) == Some((code, pos as nat)));
    let ghost r = b@.skip(pos as int);
    let message: Option<String>;
    if len - pos == 1 && b[pos] == 0 {
        message = None;
    } else if len - pos >= 1 && b[pos] == 1 {
        assert(b@.skip(pos + 1) =~= r.skip(1));
        match read_text(b, pos + 1) {
            Some((m, n)) => {
                if pos + 1 + n == len {
                    message = Some(m);
                } else {
                    proof {
                        lemma_host_error_rejected(b@);
                    }
                    return Err(DecodeError);
                }
            },
            None => {
                proof {
                    lemma_host_error_rejected(b@);
                }
                return Err(DecodeError);
            },
        }
    } else {
        proof {
            lemma_host_error_rejected(b@);
        }
        return Err(DecodeError);
    }
    let e = HostError { code, message };
    assert(parse_host_error(b@) == Some(e@));
    proof {
        lemma_host_error_sound(b@);
    }
    Ok(e)
}

/// Identifies the parameter that a value is bound to.
pub enum BindKey {
    Anonymous,
    Numeric(usize),
    Named(String),
}

pub enum BindKeyModel {
    Anonymous,
    Numeric(usize),
    Named(Seq<char>),
}

impl View for BindKey {
    type V = BindKeyModel;

    open spec fn view(&self) -> BindKeyModel {
        match self {
            BindKey::Anonymous => BindKeyModel::Anonymous,
            BindKey::Numeric(n) => BindKeyModel::Numeric(*n),
            BindKey::Named(t) => BindKeyModel::Named(t@),
        }
    }
}

/// One bound parameter: the unit sent to the host per binding.
pub struct BindPair {
    pub key: BindKey,
    pub value: SqlValue,
}

impl View for BindPair {
    type V = (BindKeyModel, ValueModel);

    open spec fn view(&self) -> (BindKeyModel, ValueModel) {
        (self.key@, self.value@)
    }
}

impl DeepView for BindPair {
    type V = (BindKeyModel, ValueModel);

    open spec fn deep_view(&self) -> (BindKeyModel, ValueModel) {
        self@
    }
}

pub open spec fn key_bytes(k: BindKeyModel) -> Seq<u8> {
    match k {
        BindKeyModel::Anonymous => u32_bytes(0),
        BindKeyModel::Numeric(n) => u32_bytes(1) + u64_bytes(n as u64),
        BindKeyModel::Named(t) => u32_bytes(2) + text_bytes(t),
    }
}

pub open spec fn pair_bytes(p: (BindKeyModel, ValueModel)) -> Seq<u8> {
    key_bytes(p.0) + value_bytes(p.1)
}

pub open spec fn pairs_bytes(ps: Seq<(BindKeyModel, ValueModel)>) -> Seq<u8>
    decreases ps.len(),
{
    if ps.len() == 0 {
        Seq::empty()
    } else {
        pairs_bytes(ps.drop_last()) + pair_bytes(ps.last())
    }
}

/// The payload of a bind call: the count of pairs, then the pairs in order.
pub open spec fn bind_list_bytes(ps: Seq<(BindKeyModel, ValueModel)>) -> Seq<u8> {
    u64_bytes(ps.len() as u64) + pairs_bytes(ps)
}

/// A bind pair whose encoding exists.
pub open spec fn pair_fits(p: (BindKeyModel, ValueModel)) -> bool {
    &&& value_fits(p.1)
    &&& match p.0 {
        BindKeyModel::Named(t) => text_fits(t),
        _ => true,
    }
}

pub open spec fn parse_key(s: Seq<u8>) -> Option<(BindKeyModel, nat)> {
    match parse_u32(s) {
        Some(tag) => {
            let r = s.skip(4);
            if tag == 0 {
                Some((BindKeyModel::Anonymous, 4))
            } else if tag == 1 {
                match parse_u64(r) {
                    Some(n) => Some((BindKeyModel::Numeric(n as usize), 12)),
                    None => None,
                }
            } else if tag == 2 {
                match parse_text(r) {
                    Some((t, n)) => Some((BindKeyModel::Named(t), 4 + n)),
                    None => None,
                }
            } else {
                None
            }
        },
        None => None,
    }
}

pub open spec fn parse_pair(s: Seq<u8>) -> Option<((BindKeyModel, ValueModel), nat)> {
    match parse_key(s) {
        Some((k, n)) => match parse_value(s.skip(n as int)) {
            Some((v, m)) => Some(((k, v), n + m)),
            None => None,
        },
        None => None,
    }
}

pub open spec fn parse_pairs(s: Seq<u8>, count: nat) -> Option<
    (Seq<(BindKeyModel, ValueModel)>, nat),
>
    decreases count,
{
    if count == 0 {
        Some((Seq::empty(), 0))
    } else {
        match parse_pairs(s, (count - 1) as nat) {
            Some((ps, n)) => match parse_pair(s.skip(n as int)) {
                Some((p, m)) => Some((ps.push(p), n + m)),
                None => None,
            },
            None => None,
        }
    }
}

/// How the host reads the payload of a bind call.
pub open spec fn parse_bind_list(s: Seq<u8>) -> Option<Seq<(BindKeyModel, ValueModel)>> {
    match parse_u64(s) {
        Some(count) => match parse_pairs(s.skip(8), count as nat) {
            Some((ps, n)) => if 8 + n == s.len() {
                Some(ps)
            } else {
                None
            },
            None => None,
        },
        None => None,
    }
}

proof fn lemma_key(k: BindKeyModel, rest: Seq<u8>)
    requires
        k matches BindKeyModel::Named(t) ==> text_fits(t),
    ensures
        parse_key(key_bytes(k) + rest) == Some((k, key_bytes(k).len())),
{
    let s = key_bytes(k) + rest;
    match k {
        BindKeyModel::Anonymous => {
            lemma_u32(0, rest);
        },
        BindKeyModel::Numeric(n) => {
            lemma_u32(1, u64_bytes(n as u64) + rest);
            assert(s =~= u32_bytes(1) + (u64_bytes(n as u64) + rest));
            lemma_u64(n as u64, rest);
            assert(((n as u64) as usize) == n);
        },
        BindKeyModel::Named(t) => {
            lemma_u32(2, text_bytes(t) + rest);
            assert(s =~= u32_bytes(2) + (text_bytes(t) + rest));
            lemma_text(t, rest);
        },
    }
}

proof fn lemma_pair(p: (BindKeyModel, ValueModel), rest: Seq<u8>)
    requires
        pair_fits(p),
    ensures
        parse_pair(pair_bytes(p) + rest) == Some((p, pair_bytes(p).len())),
{
    let s = pair_bytes(p) + rest;
    lemma_key(p.0, value_bytes(p.1) + rest);
    assert(s =~= key_bytes(p.0) + (value_bytes(p.1) + rest));
    assert(s.skip(key_bytes(p.0).len() as int) =~= value_bytes(p.1) + rest);
    lemma_value(p.1, rest);
}

proof fn lemma_pairs(ps: Seq<(BindKeyModel, ValueModel)>, rest: Seq<u8>)
    requires
        forall|i: int| 0 <= i < ps.len() ==> pair_fits(#[trigger] ps[i]),
    ensures
        parse_pairs(pairs_bytes(ps) + rest, ps.len()) == Some((ps, pairs_bytes(ps).len())),
    decreases ps.len(),
{
    if ps.len() > 0 {
        let init = ps.drop_last();
        let last = ps.last();
        assert(pair_fits(ps[ps.len() - 1]));
        lemma_pairs(init, pair_bytes(last) + rest);
        let s = pairs_bytes(ps) + rest;
        assert(s =~= pairs_bytes(init) + (pair_bytes(last) + rest));
        assert(s.skip(pairs_bytes(init).len() as int) =~= pair_bytes(last) + rest);
        lemma_pair(last, rest);
        assert(init.push(last) =~= ps);
    }
}

/// The host reads the payload of a bind call back as exactly the pairs that
/// were encoded, in order.
pub proof fn lemma_bind_list(ps: Seq<(BindKeyModel, ValueModel)>)
    requires
        fits(ps.len()),
        forall|i: int| 0 <= i < ps.len() ==> pair_fits(#[trigger] ps[i]),
    ensures
        parse_bind_list(bind_list_bytes(ps)) == Some(ps),
{
    lemma_u64(ps.len() as u64, pairs_bytes(ps));
    lemma_pairs(ps, Seq::empty());
    assert(pairs_bytes(ps) + Seq::empty() =~= pairs_bytes(ps));
}

fn append_bytes(out: &mut Vec<u8>, b: &[u8])
    ensures
        final(out)@ == old(out)@ + b@,
{
    let mut i: usize = 0;
    while i < b.len()
        invariant
            i <= b@.len(),
            out@ == old(out)@ + b@.take(i as int),
        decreases b@.len() - i,
    {
        assert(b@.take(i + 1) =~= b@.take(i as int).push(b@[i as int]));
        out.push(b[i]);
        i = i + 1;
    }
    assert(b@.take(i as int) =~= b@);
}

fn write_u32(out: &mut Vec<u8>, n: u32)
    ensures
        final(out)@ == old(out)@ + u32_bytes(n),
{
    let w = u32_to_le_bytes(n);
    append_bytes(out, w.as_slice());
}

fn write_u64(out: &mut Vec<u8>, n: u64)
    ensures
        final(out)@ == old(out)@ + u64_bytes(n),
{
    let w = u64_to_le_bytes(n);
    append_bytes(out, w.as_slice());
}

fn write_len_prefixed(out: &mut Vec<u8>, b: &[u8])
    ensures
        final(out)@ == old(out)@ + len_prefixed(b@),
{
    write_u64(out, b.len() as u64);
    append_bytes(out, b);
    assert(final(out)@ =~= old(out)@ + len_prefixed(b@));
}

fn write_text(out: &mut Vec<u8>, t: &str)
    ensures
        final(out)@ == old(out)@ + text_bytes(t@),
{
    write_len_prefixed(out, t.as_bytes());
}

fn write_value(out: &mut Vec<u8>, v: &SqlValue)
    ensures
        final(out)@ == old(out)@ + value_bytes(v@),
{
    let ghost start = out@;
    match v {
        SqlValue::Null => write_u32(out, 0),
        SqlValue::Blob(b) => {
            write_u32(out, 1);
            write_len_prefixed(out, b.as_slice());
        },
        SqlValue::Text(t) => {
            write_u32(out, 2);
            write_text(out, t.as_str());
        },
        SqlValue::Double(d) => {
            write_u32(out, 3);
            write_u64(out, *d);
        },
        SqlValue::Int(i) => {
            write_u32(out, 4);
            write_u32(out, *i as u32);
        },
        SqlValue::Int64(i) => {
            write_u32(out, 5);
            write_u64(out, *i as u64);
        },
    }
    assert(out@ =~= start + value_bytes(v@));
}

fn write_key(out: &mut Vec<u8>, k: &BindKey)
    ensures
        final(out)@ == old(out)@ + key_bytes(k@),
{
    let ghost start = out@;
    match k {
        BindKey::Anonymous => write_u32(out, 0),
        BindKey::Numeric(n) => {
            write_u32(out, 1);
            write_u64(out, *n as u64);
        },
        BindKey::Named(t) => {
            write_u32(out, 2);
            write_text(out, t.as_str());
        },
    }
    assert(out@ =~= start + key_bytes(k@));
}

/// Encodes the payload of a bind call.
pub fn encode_bind_list(pairs: &Vec<BindPair>) -> (r: Vec<u8>)
    ensures
        r@ == bind_list_bytes(pairs.deep_view()),
{
    let mut out: Vec<u8> = Vec::new();
    write_u64(&mut out, pairs.len() as u64);
    let mut i: usize = 0;
    while i < pairs.len()
        invariant
            i <= pairs@.len(),
            out@ == u64_bytes(pairs@.len() as u64) + pairs_bytes(pairs.deep_view().take(i as int)),
        decreases pairs@.len() - i,
    {
        let ghost before = out@;
        write_key(&mut out, &pairs[i].key);
        write_value(&mut out, &pairs[i].value);
        let ghost ps = pairs.deep_view().take(i + 1);
        assert(ps.drop_last() =~= pairs.deep_view().take(i as int));
        assert(out@ =~= u64_bytes(pairs@.len() as u64) + pairs_bytes(ps));
        i = i + 1;
    }
    assert(pairs.deep_view().take(i as int) =~= pairs.deep_view());
    out
}

/// Encodes the payload of one result row, as the host sends it.
pub fn encode_row(row: &Vec<SqlValue>) -> (r: Vec<u8>)
    ensures
        r@ == row_bytes(row.deep_view()),
{
    let mut out: Vec<u8> = Vec::new();
    write_u64(&mut out, row.len() as u64);
    let mut i: usize = 0;
    while i < row.len()
        invariant
            i <= row@.len(),
            out@ == u64_bytes(row@.len() as u64) + values_bytes(row.deep_view().take(i as int)),
        decreases row@.len() - i,
    {
        write_value(&mut out, &row[i]);
        let ghost vs = row.deep_view().take(i + 1);
        assert(vs.drop_last() =~= row.deep_view().take(i as int));
        assert(out@ =~= u64_bytes(row@.len() as u64) + values_bytes(vs));
        i = i + 1;
    }
    assert(row.deep_view().take(i as int) =~= row.deep_view());
    out
}

} // verus!
