//! Half-precision (IEEE 754 binary16) math on buffers placed in an arena.
//!
//! Elements are stored as their `u16` bit patterns. The library provides
//! bump-allocated buffers, bit-level element operations (absolute value,
//! ReLU, sign masks), correctly rounded element-wise arithmetic, and the
//! plans by which work on large buffers is split into kernel launches.
use vstd::prelude::*;

pub mod half;
pub mod round;
pub mod arith;
pub mod memory;
pub mod elementwise;
pub mod load;
pub mod plan;
pub mod laws;

pub use memory::{Arena, UnifiedBuffer};
pub use load::alloc_buffer;

verus! {

} // verus!
