//! Field names of the Tact grammar.

use vstd::prelude::*;

verus! {

pub const CONDITION: &'static str = "condition";

pub const ARGUMENTS: &'static str = "arguments";

} // verus!
