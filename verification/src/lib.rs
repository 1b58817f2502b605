//! Proving keys under a memory ceiling.
//!
//! A prover's memory is dominated by its key and by the cosets that it builds
//! from it. This crate keeps them in memory, or moves them into mapped files that
//! the operating system may take back, as a policy says ([`config`]). Where values
//! live never changes what they are: that is what the contracts here say.
//!
//! - [`plonk::mmap_pk`] moves batches of polynomials into mapped files, through
//!   the steps of [`plonk::device`].
//! - [`plonk::cosets`] builds cosets in memory or in such files.
//! - [`plonk::vk`] and [`plonk::pk`] hold keys, read and write them
//!   ([`encoding`]), and move them.
//! - [`poly`] has the polynomials, their read-only views, and the storage of
//!   bases.
//! - [`curve`] has the scalars and commitments of BLS12-381.
pub mod bytes;
pub mod config;
pub mod curve;
pub mod encoding;
pub mod error;
pub mod field;
pub mod plonk;
pub mod poly;
pub mod store;
pub mod text;
