//! A protocol gateway library: conversions between LLM wire protocols and a
//! protocol-neutral core representation, and the policy side of a plugin host.
use vstd::prelude::*;

pub mod assoc;
pub mod json;
pub mod plugin;
pub mod protocol;
pub mod text;

verus! {
} // verus!
