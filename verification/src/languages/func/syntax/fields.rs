//! Field names of the FunC grammar.

use vstd::prelude::*;

verus! {

pub const ARGUMENTS: &'static str = "arguments";

pub const CONDITION: &'static str = "condition";

pub const COUNT: &'static str = "count";

} // verus!
