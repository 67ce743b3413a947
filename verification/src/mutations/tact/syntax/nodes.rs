//! Node kinds of the Tact grammar.

use vstd::prelude::*;

verus! {

pub const BINARY_EXPRESSION: &'static str = "binary_expression";

pub const BOOLEAN: &'static str = "boolean";

pub const DESTRUCT_STATEMENT: &'static str = "destruct_statement";

pub const DO_UNTIL_STATEMENT: &'static str = "do_until_statement";

pub const EXPRESSION_STATEMENT: &'static str = "expression_statement";

pub const FOREACH_STATEMENT: &'static str = "foreach_statement";

pub const IF_STATEMENT: &'static str = "if_statement";

pub const LET_STATEMENT: &'static str = "let_statement";

pub const METHOD_CALL_EXPRESSION: &'static str = "method_call_expression";

pub const REPEAT_STATEMENT: &'static str = "repeat_statement";

pub const RETURN_STATEMENT: &'static str = "return_statement";

pub const STATIC_CALL_EXPRESSION: &'static str = "static_call_expression";

pub const TERNARY_EXPRESSION: &'static str = "ternary_expression";

pub const WHILE_STATEMENT: &'static str = "while_statement";

pub const BREAK_STATEMENT: &'static str = "break_statement";

pub const CONTINUE_STATEMENT: &'static str = "continue_statement";

} // verus!
