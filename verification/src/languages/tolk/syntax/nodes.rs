//! Node kinds of the Tolk grammar.

use vstd::prelude::*;

verus! {

pub const IF_STATEMENT: &'static str = "if_statement";

pub const RETURN_STATEMENT: &'static str = "return_statement";

pub const EXPRESSION_STATEMENT: &'static str = "expression_statement";

pub const WHILE_STATEMENT: &'static str = "while_statement";

pub const DO_WHILE_STATEMENT: &'static str = "do_while_statement";

pub const REPEAT_STATEMENT: &'static str = "repeat_statement";

pub const THROW_STATEMENT: &'static str = "throw_statement";

pub const ASSERT_STATEMENT: &'static str = "assert_statement";

pub const TRY_CATCH_STATEMENT: &'static str = "try_catch_statement";

pub const MATCH_STATEMENT: &'static str = "match_statement";

pub const BLOCK_STATEMENT: &'static str = "block_statement";

pub const BREAK_STATEMENT: &'static str = "break_statement";

pub const CONTINUE_STATEMENT: &'static str = "continue_statement";

pub const FUNCTION_CALL: &'static str = "function_call";

pub const BINARY_OPERATOR: &'static str = "binary_operator";

pub const UNARY_OPERATOR: &'static str = "unary_operator";

pub const BOOLEAN_LITERAL: &'static str = "boolean_literal";

pub const ASSIGNMENT: &'static str = "assignment";

pub const LAMBDA_EXPRESSION: &'static str = "lambda_expression";

pub const MATCH_EXPRESSION: &'static str = "match_expression";

} // verus!
