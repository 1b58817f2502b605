//! Element storage behind a mapping, as the code that fills and reads it sees it.
use std::sync::Arc;

use vstd::prelude::*;

use crate::error::IoFailure;

verus! {

/// A fixed run of elements that can be read for as long as the store lives.
pub trait MappedStore<F> {
    /// The elements, in order. A store outside this crate has some, too: what
    /// they are is left to it.
    closed spec fn slots(&self) -> Seq<F> {
        arbitrary()
    }

    /// The elements.
    fn elems(&self) -> (elems: &[F])
        ensures
            elems@ == self.slots(),
    ;
}

/// A store that is filled one element at a time and then sealed.
pub trait SpillStore<F>: MappedStore<F> + Sized {
    /// How many elements the store has room for.
    fn slot_count(&self) -> (count: usize)
        ensures
            count == self.slots().len(),
    ;

    /// Puts a live value into one slot and leaves the others alone.
    fn put(&mut self, index: usize, value: F)
        requires
            index < old(self).slots().len(),
        ensures
            final(self).slots() == old(self).slots().update(index as int, value),
    ;

    /// Writes the elements back and makes the store read-only.
    fn seal(self) -> (sealed: Result<Self, IoFailure>)
        ensures
            sealed matches Ok(store) ==> store.slots() == self.slots(),
    ;
}

impl<F> MappedStore<F> for Vec<F> {
    open spec fn slots(&self) -> Seq<F> {
        self@
    }

    fn elems(&self) -> (elems: &[F]) {
        self.as_slice()
    }
}

/// Heap memory as a store, for hosts without a file system to map.
impl<F> SpillStore<F> for Vec<F> {
    fn slot_count(&self) -> (count: usize) {
        self.len()
    }

    fn put(&mut self, index: usize, value: F) {
        self[index] = value;
    }

    fn seal(self) -> (sealed: Result<Self, IoFailure>)
        ensures
            sealed == Ok::<Self, IoFailure>(self),
    {
        Ok(self)
    }
}

/// Another handle on a shared value.
///
/// This is `Arc::clone`: the new handle points to the same value.
#[verifier::external_body]
pub(crate) fn share<M>(handle: &Arc<M>) -> (shared: Arc<M>)
    ensures
        shared == *handle,
{
    Arc::clone(handle)
}

} // verus!
