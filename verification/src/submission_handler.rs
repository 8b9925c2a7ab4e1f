//! Registration of in-flight operations in the slots of a handle.
//!
//! Each handle owns one slot for reads and one for writes. A slot holds the
//! operation that is in flight on it; a poll of the handle installs its
//! dispatcher only into an empty slot, polls whatever the slot holds, and
//! empties the slot once that operation has completed.
use std::marker::PhantomData;
use vstd::prelude::*;

verus! {

/// Slot contents after a dispatcher was offered: an empty slot takes the
/// dispatcher, an occupied slot keeps its in-flight operation.
pub open spec fn installed<F>(slot: Option<F>, dispatcher: F) -> Option<F> {
    match slot {
        None => Some(dispatcher),
        Some(op) => Some(op),
    }
}

/// Slot contents after the operation in it was polled: a completed
/// operation (`Some` outcome) leaves the slot empty.
pub open spec fn settled<F, R>(slot: Option<F>, outcome: Option<R>) -> Option<F> {
    if outcome is Some {
        None
    } else {
        slot
    }
}

/// Offers `dispatcher` to a slot whose lock the caller holds.
pub fn offer<F>(slot: &mut Option<F>, dispatcher: F) -> (fresh: bool)
    ensures
        *final(slot) == installed(*old(slot), dispatcher),
        fresh == (*old(slot) is None),
{
    if slot.is_none() {
        *slot = Some(dispatcher);
        true
    } else {
        false
    }
}

/// Records the outcome of polling the operation in a slot whose lock the
/// caller holds, and hands the outcome back: `Some` is a completed
/// operation, `None` one that is still pending.
pub fn settle<F, R>(slot: &mut Option<F>, outcome: Option<R>) -> (r: Option<R>)
    ensures
        *final(slot) == settled(*old(slot), outcome),
        r == outcome,
{
    if outcome.is_some() {
        *slot = None;
    }
    outcome
}

/// Submission side of a handle's operations.
pub struct SubmissionHandler<T>(PhantomData<T>);

impl<T> SubmissionHandler<T> {
    /// Registers a read: with the read slot's lock held, `dispatcher`
    /// becomes the in-flight read unless a read is already in flight, which
    /// then stays. Returns whether the dispatcher was installed.
    pub fn handle_read<F>(slot: &mut Option<F>, dispatcher: F) -> (fresh: bool)
        ensures
            *final(slot) == installed(*old(slot), dispatcher),
            fresh == (*old(slot) is None),
    {
        offer(slot, dispatcher)
    }

    /// Registers a write, as `handle_read` does for the write slot.
    pub fn handle_write<F>(slot: &mut Option<F>, dispatcher: F) -> (fresh: bool)
        ensures
            *final(slot) == installed(*old(slot), dispatcher),
            fresh == (*old(slot) is None),
    {
        offer(slot, dispatcher)
    }
}

/// An offered dispatcher never replaces the operation in flight: after an
/// offer the slot holds an operation to poll, which is the earlier one when
/// there was one.
pub proof fn law_in_flight_operation_is_kept<F>(slot: Option<F>, dispatcher: F)
    ensures
        installed(slot, dispatcher) is Some,
        slot is Some ==> installed(slot, dispatcher) == slot,
{
}

/// A completed operation frees its slot, so the next offer installs the
/// next dispatcher; a pending one keeps the slot, so the next offer keeps
/// polling the same operation.
pub proof fn law_completion_frees_slot<F, R>(slot: Option<F>, d1: F, outcome: Option<R>, d2: F)
    ensures
        ({
            let after = settled(installed(slot, d1), outcome);
            &&& outcome is Some ==> installed(after, d2) == Some(d2)
            &&& outcome is None ==> installed(after, d2) == installed(slot, d1)
        }),
{
}

} // verus!
