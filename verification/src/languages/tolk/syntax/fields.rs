//! Field names of the Tolk grammar.

use vstd::prelude::*;

verus! {

pub const CONDITION: &'static str = "condition";

pub const BODY: &'static str = "body";

pub const ALTERNATIVE: &'static str = "alternative";

pub const FUNCTION_NAME: &'static str = "function_name";

pub const ARGUMENTS: &'static str = "arguments";

pub const OPERATOR_NAME: &'static str = "operator_name";

pub const LEFT: &'static str = "left";

pub const RIGHT: &'static str = "right";

pub const EXPR: &'static str = "expr";

pub const VALUE: &'static str = "value";

} // verus!
