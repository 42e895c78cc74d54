//! The lifecycle of a prepared statement.
//!
//! A statement is prepared, bound one parameter at a time, stepped row by
//! row until the host reports that no rows are left, and then either reset
//! (to be bound and stepped again) or finalized. The host calls are made by
//! the caller; the methods here decide what is sent and track the state.

use vstd::prelude::*;

use crate::value::ValueModel;
use crate::wire::{bind_list_bytes, encode_bind_list, BindKeyModel, BindPair};

verus! {

/// The host's status code for success.
pub const SQLITE_OK: u32 = 0;

/// The host's step code for "a row is available".
pub const SQLITE_ROW: u32 = 100;

/// The host's step code for "no more rows".
pub const SQLITE_DONE: u32 = 101;

#[derive(PartialEq, Eq, Structural, Clone, Copy, Debug)]
pub enum StatementState {
    /// Prepared, or reset: no parameter bound, not stepped.
    Prepared,
    /// At least one parameter bound, not stepped.
    Bound,
    /// Stepped; the last step produced a row.
    Stepping,
    /// The last step reported no more rows, or failed.
    Exhausted,
}

/// What one step of a statement produced.
#[derive(PartialEq, Eq, Structural, Clone, Copy, Debug)]
pub enum StepResult {
    RowAvailable,
    NoMoreRows,
    /// The host reported this code; the connection's last error explains it.
    Failed(u32),
}

pub struct StatementModel {
    pub statement_id: u64,
    pub state: StatementState,
    pub is_cached: bool,
    /// The parameters bound since the statement was prepared or last reset.
    pub bound: Seq<(BindKeyModel, ValueModel)>,
}

/// A prepared statement owned by the guest. Finalizing consumes it, so a
/// finalized statement can no longer be used.
pub struct Statement {
    statement_id: u64,
    state: StatementState,
    is_cached: bool,
    bound: Ghost<Seq<(BindKeyModel, ValueModel)>>,
}

impl View for Statement {
    type V = StatementModel;

    closed spec fn view(&self) -> StatementModel {
        StatementModel {
            statement_id: self.statement_id,
            state: self.state,
            is_cached: self.is_cached,
            bound: self.bound@,
        }
    }
}

pub open spec fn after_bind(m: StatementModel, p: (BindKeyModel, ValueModel)) -> StatementModel {
    StatementModel { state: StatementState::Bound, bound: m.bound.push(p), ..m }
}

pub open spec fn after_bind_all(
    m: StatementModel,
    ps: Seq<(BindKeyModel, ValueModel)>,
) -> StatementModel
    decreases ps.len(),
{
    if ps.len() == 0 {
        m
    } else {
        after_bind(after_bind_all(m, ps.drop_last()), ps.last())
    }
}

pub open spec fn after_step(m: StatementModel, code: u32) -> StatementModel {
    StatementModel {
        state: if code == SQLITE_ROW {
            StatementState::Stepping
        } else {
            StatementState::Exhausted
        },
        ..m
    }
}

pub open spec fn after_reset(m: StatementModel) -> StatementModel {
    StatementModel { state: StatementState::Prepared, bound: Seq::empty(), ..m }
}

pub open spec fn step_result(code: u32) -> StepResult {
    if code == SQLITE_ROW {
        StepResult::RowAvailable
    } else if code == SQLITE_DONE {
        StepResult::NoMoreRows
    } else {
        StepResult::Failed(code)
    }
}

impl Statement {
    /// A statement that the host has just prepared under `statement_id`.
    pub fn new(statement_id: u64, is_cached: bool) -> (r: Statement)
        ensures
            r@ == (StatementModel {
                statement_id,
                state: StatementState::Prepared,
                is_cached,
                bound: Seq::empty(),
            }),
    {
        Statement {
            statement_id,
            state: StatementState::Prepared,
            is_cached,
            bound: Ghost(Seq::empty()),
        }
    }

    pub fn statement_id(&self) -> (r: u64)
        ensures
            r == self@.statement_id,
    {
        self.statement_id
    }

    pub fn is_cached(&self) -> (r: bool)
        ensures
            r == self@.is_cached,
    {
        self.is_cached
    }

    pub fn state(&self) -> (r: StatementState)
        ensures
            r == self@.state,
    {
        self.state
    }

    /// Binds one parameter; returns the payload of the host's bind call, a
    /// one-element bind list. Parameters are bound before the first step.
    pub fn bind(&mut self, pair: BindPair) -> (payload: Vec<u8>)
        requires
            old(self)@.state == StatementState::Prepared || old(self)@.state
                == StatementState::Bound,
        ensures
            final(self)@ == after_bind(old(self)@, pair@),
            payload@ == bind_list_bytes(seq![pair@]),
    {
        let ghost p = pair@;
        let list = vec![pair];
        assert(list.deep_view() =~= seq![p]);
        let payload = encode_bind_list(&list);
        self.state = StatementState::Bound;
        self.bound = Ghost(self.bound@.push(p));
        payload
    }

    /// Whether a step call is still to be made: a statement that reported no
    /// more rows stays exhausted until it is reset.
    pub fn needs_step(&self) -> (r: bool)
        ensures
            r == (self@.state != StatementState::Exhausted),
    {
        match self.state {
            StatementState::Exhausted => false,
            _ => true,
        }
    }

    /// Records the code that the host's step call returned.
    pub fn on_step(&mut self, code: u32) -> (r: StepResult)
        requires
            old(self)@.state != StatementState::Exhausted,
        ensures
            final(self)@ == after_step(old(self)@, code),
            r == step_result(code),
    {
        if code == SQLITE_ROW {
            self.state = StatementState::Stepping;
            StepResult::RowAvailable
        } else if code == SQLITE_DONE {
            self.state = StatementState::Exhausted;
            StepResult::NoMoreRows
        } else {
            self.state = StatementState::Exhausted;
            StepResult::Failed(code)
        }
    }

    /// Records the host's reset call: bindings and step position are cleared
    /// and the prepared statement is kept.
    pub fn reset(&mut self)
        ensures
            final(self)@ == after_reset(old(self)@),
    {
        self.state = StatementState::Prepared;
        self.bound = Ghost(Seq::empty());
    }

    /// Gives up the statement; returns the handle to pass to the host's
    /// finalize call.
    pub fn finalize(self) -> (r: u64)
        ensures
            r == self@.statement_id,
    {
        self.statement_id
    }
}

/// A statement that reported no more rows stays exhausted, so no further
/// step is made, until it is reset; the reset makes it the same prepared
/// statement, ready to be stepped from its first row again.
pub proof fn lemma_exhausted_until_reset(m: StatementModel)
    ensures
        after_step(m, SQLITE_DONE).state == StatementState::Exhausted,
        step_result(SQLITE_DONE) == StepResult::NoMoreRows,
        after_reset(after_step(m, SQLITE_DONE)).state == StatementState::Prepared,
        after_reset(after_step(m, SQLITE_DONE)).statement_id == m.statement_id,
        after_reset(after_step(m, SQLITE_DONE)).bound.len() == 0,
{
}

/// A statement reset and bound again holds exactly the new parameters: no
/// binding made before the reset remains, whatever happened before it, and
/// it is still the same prepared statement.
pub proof fn lemma_reuse_after_reset(m: StatementModel, ps: Seq<(BindKeyModel, ValueModel)>)
    ensures
        after_bind_all(after_reset(m), ps).bound == ps,
        after_bind_all(after_reset(m), ps).statement_id == m.statement_id,
        after_bind_all(after_reset(m), ps).is_cached == m.is_cached,
    decreases ps.len(),
{
    if ps.len() > 0 {
        lemma_reuse_after_reset(m, ps.drop_last());
        assert(ps.drop_last().push(ps.last()) =~= ps);
    }
}

} // verus!
