//! The KZG commitment scheme's reference string.
pub mod bases;
mod sealed;
