//! Huang's weight-throwing termination detection.
//!
//! A controlling agent starts out holding the whole weight.  Weight travels
//! with every computation message, flows back to the controlling agent in
//! control messages when a process goes idle, and is never created or
//! destroyed on the way.  Once the controlling agent holds the whole weight
//! again and is itself idle, the computation has terminated.
//!
//! Weights are exact fixed-point quantities: `WEIGHT_UNITS` units stand for
//! a weight of one.
use vstd::prelude::*;

pub mod sums;
pub mod weight;
pub mod message;
pub mod randomness;
pub mod process;
pub mod monitor;
pub mod system;
pub mod laws;

verus! {
} // verus!
