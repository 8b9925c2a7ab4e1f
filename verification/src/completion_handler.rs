//! Completion side of a handle's operations.
use std::marker::PhantomData;
use vstd::prelude::*;

use crate::submission_handler::{installed, offer};

verus! {

/// Completion side of a handle's operations.
pub struct CompletionHandler<T>(PhantomData<T>);

impl<T> CompletionHandler<T> {
    /// Registers a read completion: with the read slot's lock held,
    /// `dispatcher` becomes the in-flight read unless one is already in
    /// flight, which then stays. Returns whether it was installed.
    pub fn handle_read<F>(slot: &mut Option<F>, dispatcher: F) -> (fresh: bool)
        ensures
            *final(slot) == installed(*old(slot), dispatcher),
            fresh == (*old(slot) is None),
    {
        offer(slot, dispatcher)
    }
}

} // verus!
