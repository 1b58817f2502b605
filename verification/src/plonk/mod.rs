//! Keys, and the storage that their polynomials live in.
pub mod cosets;
pub mod device;
pub mod error;
pub mod mmap_pk;
pub mod pk;
pub mod stage;
pub mod system;
pub mod vk;
