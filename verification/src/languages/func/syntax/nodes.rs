//! Node kinds of the FunC grammar.

use vstd::prelude::*;

verus! {

pub const ARGUMENT_LIST: &'static str = "argument_list";

pub const ASSIGNMENT_STATEMENT: &'static str = "assignment_statement";

pub const CALL_EXPRESSION: &'static str = "call_expression";

pub const EXPRESSION_STATEMENT: &'static str = "expression_statement";

pub const FUNCTION_APPLICATION: &'static str = "function_application";

pub const IF_STATEMENT: &'static str = "if_statement";

pub const IFNOT_STATEMENT: &'static str = "ifnot_statement";

pub const METHOD_CALL: &'static str = "method_call";

pub const REPEAT_STATEMENT: &'static str = "repeat_statement";

pub const RETURN_STATEMENT: &'static str = "return_statement";

pub const UNTIL_STATEMENT: &'static str = "until_statement";

pub const VARIABLE_DECLARATION: &'static str = "variable_declaration";

pub const WHILE_STATEMENT: &'static str = "while_statement";

pub const EXPRESSION: &'static str = "expression";

pub const BOOLEAN: &'static str = "boolean";

pub const BREAK_STATEMENT: &'static str = "break_statement";

pub const CONTINUE_STATEMENT: &'static str = "continue_statement";

} // verus!
