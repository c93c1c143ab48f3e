//! A deterministic pseudo-random number generator.
//!
//! A device is built from seed bytes and a state size. The seed is folded into a
//! ring of 32-byte blocks, the ring is diffused with SHA-256, and six parameter
//! arrays are read from it. Values are then produced by a per-lane multiplicative
//! recurrence whose output is whitened by a slower auxiliary recurrence. The
//! device keeps one checkpoint that it can return to.
//!
//! - [`diffusion`]: the ring of blocks, seed absorption, rounds and harvest.
//! - [`hash`]: the SHA-256 call, the one item taken on trust.
//! - [`model`]: what a device is and what every operation computes, with the
//!   laws that hold of it.
//! - [`prng`]: the device itself.
//! - [`utils_vec_join`]: the text forms in which a device is persisted.

pub mod diffusion;
pub mod hash;
pub mod model;
pub mod prng;
pub mod utils_vec_join;
