//! What keeps a trait from being implemented elsewhere.
use vstd::prelude::*;

verus! {

/// Prevents implementation outside this crate.
pub trait Sealed {

}

} // verus!
