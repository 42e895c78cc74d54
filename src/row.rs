//! Decoded result rows, their fields, and the cursor that steps a statement.

use vstd::prelude::*;
use vstd::utf8::*;

use crate::error::Error;
use crate::statement::{
    after_step, step_result, Statement, StatementModel, StatementState, StepResult,
};
use crate::value::{SqlValue, ValueModel};
use crate::wire::{
    decode_names, decode_row, lemma_names, lemma_row, names_bytes, names_fit, parse_names,
    parse_row, row_bytes, row_fits,
};

verus! {

/// Compares two texts by their UTF-8 bytes.
fn same_text(a: &str, b: &str) -> (r: bool)
    ensures
        r == (a@ == b@),
{
    let x = a.as_bytes();
    let y = b.as_bytes();
    proof {
        encode_utf8_decode_utf8(a@);
        encode_utf8_decode_utf8(b@);
    }
    if x.len() != y.len() {
        return false;
    }
    let mut i: usize = 0;
    while i < x.len()
        invariant
            x@.len() == y@.len(),
            a@ == b@ ==> x@ == y@,
            i <= x@.len(),
            forall|j: int| 0 <= j < i ==> x@[j] == y@[j],
        decreases x@.len() - i,
    {
        if x[i] != y[i] {
            return false;
        }
        i = i + 1;
    }
    assert(x@ =~= y@);
    true
}

/// Whether `i` is the index of the first name equal to `name`.
pub open spec fn is_first_index(names: Seq<Seq<char>>, name: Seq<char>, i: int) -> bool {
    &&& 0 <= i < names.len()
    &&& names[i] == name
    &&& forall|j: int| 0 <= j < i ==> names[j] != name
}

/// One decoded row of a result set, with the column names of the statement
/// that produced it.
pub struct SqliteRow {
    pub inner_row: Vec<SqlValue>,
    pub statement_id: u64,
    pub field_names: Vec<String>,
}

/// One column of a row.
pub struct SqliteField {
    pub inner_field: SqlValue,
    pub field_name: Option<String>,
}

impl SqliteRow {
    pub fn field_count(&self) -> (r: usize)
        ensures
            r == self.inner_row@.len(),
    {
        self.inner_row.len()
    }

    /// Checks a column index against the number of columns.
    pub fn idx(&self, idx: usize) -> (r: Option<usize>)
        ensures
            r == if idx < self.inner_row@.len() {
                Some(idx)
            } else {
                None
            },
    {
        if idx < self.field_count() {
            Some(idx)
        } else {
            None
        }
    }

    /// Finds a column by name: the first column with that name.
    pub fn idx_by_name(&self, field_name: &str) -> (r: Option<usize>)
        ensures
            match r {
                Some(i) => is_first_index(self.field_names.deep_view(), field_name@, i as int),
                None => forall|i: int|
                    0 <= i < self.field_names@.len() ==> self.field_names@[i]@ != field_name@,
            },
    {
        let ghost names = self.field_names.deep_view();
        let mut i: usize = 0;
        while i < self.field_names.len()
            invariant
                i <= self.field_names@.len(),
                names == self.field_names.deep_view(),
                forall|j: int| 0 <= j < i ==> names[j] != field_name@,
            decreases self.field_names@.len() - i,
        {
            if same_text(self.field_names[i].as_str(), field_name) {
                return Some(i);
            }
            i = i + 1;
        }
        assert forall|k: int| 0 <= k < self.field_names@.len() implies self.field_names@[k]@
            != field_name@ by {
            assert(names[k] == self.field_names@[k]@);
        }
        None
    }

    /// The field at a column index, with the column's name when known.
    pub fn get(&self, idx: usize) -> (r: Option<SqliteField>)
        ensures
            match r {
                Some(f) => idx < self.inner_row@.len() && f.inner_field@ == self.inner_row@[idx as int]@
                    && f.field_name_view() == if idx < self.field_names@.len() {
                    Some(self.field_names@[idx as int]@)
                } else {
                    None
                },
                None => idx >= self.inner_row@.len(),
            },
    {
        match self.idx(idx) {
            Some(i) => {
                let field_name = if i < self.field_names.len() {
                    Some(self.field_names[i].clone())
                } else {
                    None
                };
                Some(SqliteField { inner_field: self.inner_row[i].duplicate(), field_name })
            },
            None => None,
        }
    }

    /// The field of the first column with the given name.
    pub fn get_by_name(&self, field_name: &str) -> (r: Option<SqliteField>)
        ensures
            match r {
                Some(f) => exists|i: int|
                    #![trigger self.inner_row@[i]]
                    is_first_index(self.field_names.deep_view(), field_name@, i) && i
                        < self.inner_row@.len() && f.inner_field@ == self.inner_row@[i]@
                        && f.field_name_view() == Some(field_name@),
                None => forall|i: int|
                    is_first_index(self.field_names.deep_view(), field_name@, i) ==> i
                        >= self.inner_row@.len(),
            },
    {
        let ghost names = self.field_names.deep_view();
        match self.idx_by_name(field_name) {
            Some(i) => {
                let r = self.get(i);
                assert(names[i as int] == self.field_names@[i as int]@);
                proof {
                    if r is None {
                        assert forall|k: int| is_first_index(names, field_name@, k) implies k
                            >= self.inner_row@.len() by {
                            if k < i {
                                assert(names[k] != field_name@);
                            } else if k > i {
                                assert(names[i as int] != field_name@);
                            }
                        }
                    }
                }
                r
            },
            None => {
                assert forall|k: int| is_first_index(names, field_name@, k) implies k
                    >= self.inner_row@.len() by {
                    assert(names[k] == self.field_names@[k]@);
                }
                None
            },
        }
    }
}

impl SqliteField {
    pub open spec fn field_name_view(&self) -> Option<Seq<char>> {
        match self.field_name {
            Some(n) => Some(n@),
            None => None,
        }
    }

    pub fn field_name(&self) -> (r: Option<&str>)
        ensures
            match r {
                Some(n) => self.field_name_view() == Some(n@),
                None => self.field_name is None,
            },
    {
        match &self.field_name {
            Some(name) => Some(name.as_str()),
            None => None,
        }
    }

    /// Whether the column holds `NULL`.
    pub fn is_null(&self) -> (r: bool)
        ensures
            r == (self.inner_field@ == ValueModel::Null),
    {
        self.inner_field.is_null()
    }

    /// The column's value, or nothing when it is `NULL`.
    pub fn value(&self) -> (r: Option<&SqlValue>)
        ensures
            match r {
                Some(v) => v@ == self.inner_field@ && v@ != ValueModel::Null,
                None => self.inner_field@ == ValueModel::Null,
            },
    {
        if self.inner_field.is_null() {
            None
        } else {
            Some(&self.inner_field)
        }
    }
}

fn copy_names(names: &Vec<String>) -> (r: Vec<String>)
    ensures
        r.deep_view() == names.deep_view(),
{
    let mut r: Vec<String> = Vec::new();
    let mut i: usize = 0;
    while i < names.len()
        invariant
            i <= names@.len(),
            r.deep_view() == names.deep_view().take(i as int),
        decreases names@.len() - i,
    {
        let ghost before = r.deep_view();
        r.push(names[i].clone());
        assert(r.deep_view() =~= before.push(names@[i as int]@));
        assert(names.deep_view().take(i + 1) =~= names.deep_view().take(i as int).push(
            names@[i as int]@,
        ));
        i = i + 1;
    }
    assert(names.deep_view().take(i as int) =~= names.deep_view());
    r
}

/// A single-pass cursor over the rows of one statement.
///
/// Each step of the cursor is one host step call, handed to [`Self::on_step`].
/// When a row is available the caller fetches it from the host and decodes it
/// with [`Self::read_row`]; the column names are fetched once per statement,
/// before the first row, and handed to [`Self::set_column_names`].
pub struct StatementIterator {
    is_first: bool,
    statement_use: Statement,
    field_names: Option<Vec<String>>,
}

impl StatementIterator {
    pub closed spec fn statement(&self) -> StatementModel {
        self.statement_use@
    }

    /// The column names, once fetched.
    pub closed spec fn names(&self) -> Option<Seq<Seq<char>>> {
        match self.field_names {
            Some(n) => Some(n.deep_view()),
            None => None,
        }
    }

    /// Whether no step has been made yet.
    pub closed spec fn first(&self) -> bool {
        self.is_first
    }

    /// A cursor over a statement that has been bound and not yet stepped.
    pub fn new(statement_use: Statement) -> (r: StatementIterator)
        ensures
            r.statement() == statement_use@,
            r.names() is None,
            r.first(),
    {
        StatementIterator { is_first: true, statement_use, field_names: None }
    }

    pub fn statement_id(&self) -> (r: u64)
        ensures
            r == self.statement().statement_id,
    {
        self.statement_use.statement_id()
    }

    /// Whether the next step needs a host call; once the statement has
    /// reported no more rows the cursor is done.
    pub fn needs_step(&self) -> (r: bool)
        ensures
            r == (self.statement().state != StatementState::Exhausted),
    {
        self.statement_use.needs_step()
    }

    /// Records the code that the host's step call returned.
    pub fn on_step(&mut self, code: u32) -> (r: StepResult)
        requires
            old(self).statement().state != StatementState::Exhausted,
        ensures
            final(self).statement() == after_step(old(self).statement(), code),
            final(self).names() == old(self).names(),
            !final(self).first(),
            r == step_result(code),
    {
        self.is_first = false;
        self.statement_use.on_step(code)
    }

    /// Whether the column names still have to be fetched.
    pub fn needs_column_names(&self) -> (r: bool)
        ensures
            r == self.names() is None,
    {
        self.field_names.is_none()
    }

    /// Decodes the payload of the host's column-names call and keeps the names.
    pub fn set_column_names(&mut self, payload: &[u8]) -> (r: Result<(), Error>)
        ensures
            final(self).statement() == old(self).statement(),
            final(self).first() == old(self).first(),
            r is Ok <==> parse_names(payload@) is Some,
            match r {
                Ok(()) => final(self).names() matches Some(ns) && names_bytes(ns) == payload@
                    && names_fit(ns) && parse_names(payload@) == Some(ns),
                Err(e) => e == Error::ProtocolDecode && final(self).names() == old(self).names()
                    && forall|ts: Seq<Seq<char>>| names_fit(ts) ==> names_bytes(ts) != payload@,
            },
    {
        match decode_names(payload) {
            Ok(names) => {
                proof {
                    lemma_names(names.deep_view());
                }
                self.field_names = Some(names);
                Ok(())
            },
            Err(_) => Err(Error::ProtocolDecode),
        }
    }

    /// Decodes the payload of the host's read-row call into a row carrying
    /// the column names.
    pub fn read_row(&self, payload: &[u8]) -> (r: Result<SqliteRow, Error>)
        requires
            self.names() is Some,
        ensures
            r is Ok <==> parse_row(payload@) is Some,
            match r {
                Ok(row) => row_bytes(row.inner_row.deep_view()) == payload@ && row_fits(
                    row.inner_row.deep_view(),
                ) && parse_row(payload@) == Some(row.inner_row.deep_view()) && Some(
                    row.field_names.deep_view(),
                ) == self.names() && row.statement_id == self.statement().statement_id,
                Err(e) => e == Error::ProtocolDecode && forall|vs: Seq<ValueModel>|
                    row_fits(vs) ==> row_bytes(vs) != payload@,
            },
    {
        match decode_row(payload) {
            Ok(inner_row) => {
                proof {
                    lemma_row(inner_row.deep_view());
                }
                let field_names = match &self.field_names {
                    Some(names) => copy_names(names),
                    None => Vec::new(),
                };
                Ok(SqliteRow { inner_row, statement_id: self.statement_use.statement_id(), field_names })
            },
            Err(_) => Err(Error::ProtocolDecode),
        }
    }

    /// Ends the cursor and gives the statement back, to be reset or finalized.
    pub fn into_statement(self) -> (r: Statement)
        ensures
            r@ == self.statement(),
    {
        self.statement_use
    }
}

} // verus!
