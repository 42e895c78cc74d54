//! SQL functions implemented by the guest.

use vstd::prelude::*;

verus! {

/// An aggregate SQL function: `step` is called once for every record of the
/// query, and `finalize` computes the result; it receives `None` when no
/// record was processed, so that it can give a default result.
pub trait SqliteAggregateFunction<Args>: Default {
    /// The result type of the aggregate function.
    type Output;

    fn step(&mut self, args: Args);

    fn finalize(aggregator: Option<Self>) -> Self::Output;
}

} // verus!
