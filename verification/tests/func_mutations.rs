//! Both FunC engines on whole functions: which kinds of mutant come out,
//! what they replace and which lines they touch.

use muton::cst::{SyntaxNode, SyntaxTree};
use muton::languages::func::engine::FuncLanguageEngine;
use muton::mutations::engine_traits::MutationEngine;
use muton::mutations::func::engine::FuncMutationEngine;
use muton::mutations::get_mutations_for_language;
use muton::types::language::Language;
use muton::types::mutants::Mutant;
use muton::types::targets::Target;
use std::collections::{HashMap, HashSet};

/// A source and a tree for it that is written down node by node, in
/// document order, each node with its depth below the root.
struct Outline {
    source: String,
    tree: SyntaxTree,
    /// The last node that was added at each depth.
    last_at: Vec<usize>,
}

impl Outline {
    fn new(source: &str) -> Outline {
        let mut tree = SyntaxTree::new();
        tree.add_node(SyntaxNode {
            kind: "source_file".to_string(),
            start_byte: 0,
            end_byte: source.len(),
            parent: None,
            field_name: None,
            is_named: true,
            is_missing: false,
            is_error: false,
        });
        Outline { source: source.to_string(), tree, last_at: vec![0] }
    }

    fn add(&mut self, depth: usize, kind: &str, text: &str, field: Option<&str>, named: bool) {
        assert!(depth >= 1 && depth <= self.last_at.len());
        let parent = self.last_at[depth - 1];
        let from = match self.last_at.get(depth) {
            Some(&previous) if previous > parent => self.tree.nodes[previous].end_byte,
            _ => self.tree.nodes[parent].start_byte,
        };
        let at = from + self.source[from..].find(text).expect("the text is in the source");
        assert!(at + text.len() <= self.tree.nodes[parent].end_byte, "{text} lies in its parent");
        let index = self.tree.add_node(SyntaxNode {
            kind: kind.to_string(),
            start_byte: at,
            end_byte: at + text.len(),
            parent: Some(parent),
            field_name: field.map(|f| f.to_string()),
            is_named: named,
            is_missing: false,
            is_error: false,
        });
        self.last_at.truncate(depth);
        self.last_at.push(index);
    }

    /// Adds a named node at the depth, below the last node one level up.
    /// Its text is looked for after the node before it on its level, or
    /// from the start of its parent.
    fn node(&mut self, depth: usize, kind: &str, text: &str) {
        self.add(depth, kind, text, None, true);
    }

    /// Adds a named node that its parent holds under a field name.
    fn field(&mut self, depth: usize, kind: &str, text: &str, field: &str) {
        self.add(depth, kind, text, Some(field), true);
    }

    /// Adds a keyword, an operator or a bracket: its kind is its text.
    fn token(&mut self, depth: usize, text: &str) {
        self.add(depth, text, text, None, false);
    }

    /// Adds `left operator right` as an expression with its three children.
    fn binary(&mut self, depth: usize, left: &str, operator: &str, right: &str) {
        let text = format!("{left} {operator} {right}");
        self.node(depth, "expression", &text);
        self.node(depth + 1, "identifier", left);
        self.token(depth + 1, operator);
        self.node(depth + 1, "identifier", right);
    }

    /// Adds `keyword (left operator right) <block>`: the statement, its
    /// keyword, its condition and the block, whose statements follow at
    /// `depth + 2`.
    fn conditional(
        &mut self,
        depth: usize,
        kind: &str,
        keyword: &str,
        condition: (&str, &str, &str),
        text: &str,
    ) {
        let (left, operator, right) = condition;
        self.node(depth, kind, text);
        self.token(depth + 1, keyword);
        let inner = format!("({left} {operator} {right})");
        self.field(depth + 1, "parenthesized_expression", &inner, "condition");
        self.token(depth + 2, "(");
        self.binary(depth + 2, left, operator, right);
        self.token(depth + 2, ")");
        let brace = text.find('{').expect("a block");
        let close = text[brace..].find('}').expect("the block ends") + brace + 1;
        self.field(depth + 1, "block_statement", &text[brace..close], "consequent");
    }

    /// Adds the body of an `else` after the block of a conditional.
    fn alternative(&mut self, depth: usize, text: &str) {
        self.token(depth + 1, "else");
        self.field(depth + 1, "block_statement", text, "alternative");
    }

    /// Adds a call statement `name(arguments);` with its argument list.
    fn call_statement(&mut self, depth: usize, name: &str, arguments: &[&str]) {
        let call = format!("{name}({})", arguments.join(", "));
        self.node(depth, "expression_statement", &format!("{call};"));
        self.node(depth + 1, "function_application", &call);
        self.field(depth + 2, "identifier", name, "function");
        self.field(depth + 2, "tensor_expression", &call[name.len()..], "arguments");
        self.token(depth + 3, "(");
        for (n, argument) in arguments.iter().enumerate() {
            if n > 0 {
                self.token(depth + 3, ",");
            }
            self.node(depth + 3, "identifier", argument);
        }
        self.token(depth + 3, ")");
    }

    /// Adds the function that spans the trimmed source and its body block;
    /// the statements of the body follow at depth 3.
    fn function(&mut self) {
        let text = self.source.trim().to_string();
        self.node(1, "function_definition", &text);
        let brace = text.find('{').expect("a body");
        self.field(2, "block_statement", &text[brace..], "body");
    }

    fn target(&self) -> Target {
        Target {
            id: 1,
            path: "/tmp/test.fc".to_string(),
            file_hash: muton::types::hash::Hash::digest(self.source.clone()),
            text: self.source.clone(),
            language: Language::FunC,
        }
    }

    /// The mutants of the engine that is built on the dialect's grammar.
    fn language_mutants(&self) -> Vec<Mutant> {
        FuncLanguageEngine::new().apply_all_mutations(&self.target(), &self.tree)
    }

    /// The mutants of the engine that the dialect is registered with.
    fn registered_mutants(&self) -> Vec<Mutant> {
        get_mutations_for_language(&Language::FunC).apply_all_mutations(&self.target(), &self.tree)
    }
}

fn count(mutants: &[Mutant], slug: &str) -> usize {
    mutants.iter().filter(|m| m.mutation_slug == slug).count()
}

/// `var x = 42; if (x > 0) { return x; } return 0;` in a function.
fn declaration_branch_return(source: &str, last: &str) -> Outline {
    let mut outline = Outline::new(source);
    outline.function();
    outline.node(3, "expression_statement", "var x = 42;");
    outline.conditional(
        3,
        "if_statement",
        "if",
        ("x", ">", "0"),
        "if (x > 0) {\n        return x;\n    }",
    );
    outline.node(5, "return_statement", "return x;");
    outline.node(3, "return_statement", last);
    outline
}

#[test]
fn test_mutation_count_comparison() {
    let source = r#"
() test_func() {
    var x = 42;
    if (x > 0) {
        return x;
    }
    return 0;
}
"#;
    let outline = declaration_branch_return(source, "return 0;");
    let ast_mutants = outline.language_mutants();

    println!("AST mutations: {}", ast_mutants.len());

    // AST should generate reasonable number of mutations
    assert!(!ast_mutants.is_empty(), "AST should generate some mutations");

    // Check mutation types
    let ast_slugs: HashSet<String> =
        ast_mutants.iter().map(|m| m.mutation_slug.chars().take(2).collect::<String>()).collect();

    println!("AST mutation types: {ast_slugs:?}");

    // Should generate diverse mutation types
    assert!(ast_slugs.len() > 3, "AST should generate diverse mutation types");
    let expected: HashSet<String> =
        ["ER", "CR", "IF", "IT", "CO"].iter().map(|s| s.to_string()).collect();
    assert_eq!(ast_slugs, expected);
    // The three outermost statements are replaced and wrapped, one
    // condition is forced both ways, and `>` becomes each of the five
    // other comparisons.
    assert_eq!(count(&ast_mutants, "ER"), 3);
    assert_eq!(count(&ast_mutants, "CR"), 3);
    assert_eq!(count(&ast_mutants, "IF"), 1);
    assert_eq!(count(&ast_mutants, "IT"), 1);
    assert_eq!(count(&ast_mutants, "COS"), 5);
    assert_eq!(ast_mutants.len(), 13);
}

#[test]
fn test_mutation_quality_comparison() {
    let source = r#"
() test_func() {
    ;; This is a comment
    var x = 42;
    if (x > 0) {
        return x;
    }
    return 0;
}
"#;
    let mut outline = Outline::new(source);
    outline.function();
    outline.node(3, "comment", ";; This is a comment");
    outline.node(3, "expression_statement", "var x = 42;");
    outline.conditional(
        3,
        "if_statement",
        "if",
        ("x", ">", "0"),
        "if (x > 0) {\n        return x;\n    }",
    );
    outline.node(5, "return_statement", "return x;");
    outline.node(3, "return_statement", "return 0;");
    let ast_mutants = outline.language_mutants();
    assert!(!ast_mutants.is_empty());

    // Check comment handling (checking old_text for comment patterns)
    let ast_comment_mutations =
        ast_mutants.iter().filter(|m| m.old_text.trim().starts_with(";;")).count();

    println!("AST comment mutations: {ast_comment_mutations}");

    // AST should avoid mutating comment-only lines
    assert_eq!(ast_comment_mutations, 0, "AST should not mutate comment-only lines");
    assert!(ast_mutants.iter().all(|m| m.line_offset != 2));
}

#[test]
fn test_complex_code_handling() {
    let source = r#"
global int counter;

() recv_internal(int my_balance, int msg_value, cell in_msg_full, slice in_msg_body) impure {
    slice cs = in_msg_full.begin_parse();
    cs~skip_bits(4);
    
    slice sender_address = cs~load_msg_addr();
    
    if (msg_value > 0) {
        ;; Process message
        var result = process_message(sender_address, msg_value);
        if (result == 0) {
            return ();
        }
    }
    
    throw(0xffff);
}

int get_counter() method_id {
    return counter;
}
"#;
    let mut outline = Outline::new(source);
    outline.node(1, "global_var_declarations", "global int counter;");
    let first = &source[source.find("() recv_internal").unwrap()..source.find("int get_counter").unwrap()];
    let first = first.trim_end();
    outline.node(1, "function_definition", first);
    outline.field(2, "block_statement", &first[first.find('{').unwrap()..], "body");
    outline.node(3, "expression_statement", "slice cs = in_msg_full.begin_parse();");
    outline.node(3, "expression_statement", "cs~skip_bits(4);");
    outline.node(3, "expression_statement", "slice sender_address = cs~load_msg_addr();");
    let outer = &first[first.find("if (msg_value").unwrap()..first.find("throw").unwrap()];
    let outer = outer.trim_end();
    outline.node(3, "if_statement", outer);
    outline.token(4, "if");
    outline.field(4, "parenthesized_expression", "(msg_value > 0)", "condition");
    outline.token(5, "(");
    outline.binary(5, "msg_value", ">", "0");
    outline.token(5, ")");
    outline.field(4, "block_statement", &outer[outer.find('{').unwrap()..], "consequent");
    outline.node(5, "comment", ";; Process message");
    outline.node(
        5,
        "expression_statement",
        "var result = process_message(sender_address, msg_value);",
    );
    let inner = "if (result == 0) {\n            return ();\n        }";
    outline.conditional(5, "if_statement", "if", ("result", "==", "0"), inner);
    outline.node(7, "return_statement", "return ();");
    outline.call_statement(3, "throw", &["0xffff"]);
    let second = "int get_counter() method_id {\n    return counter;\n}";
    outline.node(1, "function_definition", second);
    outline.field(2, "block_statement", "{\n    return counter;\n}", "body");
    outline.node(3, "return_statement", "return counter;");

    let ast_mutants = outline.language_mutants();
    println!("Complex code - AST mutations: {}", ast_mutants.len());

    // Should generate substantial mutations for complex code
    assert!(
        ast_mutants.len() > 5,
        "AST should generate substantial mutations for complex code"
    );
    let target = outline.target();
    for mutant in &ast_mutants {
        let start = mutant.byte_offset as usize;
        assert_eq!(&target.text[start..start + mutant.old_text.len()], mutant.old_text);
        assert!(!mutant.old_text.contains("Process message") || mutant.old_text.contains("if"));
    }
}

#[test]
fn test_mutation_overlap_analysis() {
    let source = r#"
() test_func() {
    var x = 42;
    var y = x + 1;
    if (x > 0) {
        return x;
    }
    return y;
}
"#;
    let mut outline = Outline::new(source);
    outline.function();
    outline.node(3, "expression_statement", "var x = 42;");
    outline.node(3, "expression_statement", "var y = x + 1;");
    outline.binary(4, "x", "+", "1");
    outline.conditional(
        3,
        "if_statement",
        "if",
        ("x", ">", "0"),
        "if (x > 0) {\n        return x;\n    }",
    );
    outline.node(5, "return_statement", "return x;");
    outline.node(3, "return_statement", "return y;");
    let ast_mutants = outline.language_mutants();

    // Analyze which lines are affected by mutations
    let mut ast_lines: HashMap<usize, Vec<String>> = HashMap::new();

    for mutant in &ast_mutants {
        ast_lines.entry(mutant.line_offset as usize).or_default().push(mutant.mutation_slug.clone());
    }

    println!("AST mutations by line: {ast_lines:?}");

    // Should affect multiple lines for decent coverage
    assert!(ast_lines.len() > 1, "AST mutations should affect multiple lines");
    let mut lines: Vec<usize> = ast_lines.keys().copied().collect();
    lines.sort();
    assert_eq!(lines, vec![2, 3, 4, 7]);
    assert!(ast_lines[&3].contains(&"AOS".to_string()));
    assert!(ast_lines[&4].contains(&"COS".to_string()));
}

#[test]
fn func_shared_slugs_presence() {
    // FunC sample with if and a call with 2 args
    let func_src = r#"()
main() {
    var x = 1;
    if (x > 0) {
        return x;
    }
    foo(1, 2);
}
"#;
    let mut outline = Outline::new(func_src);
    outline.function();
    outline.node(3, "expression_statement", "var x = 1;");
    outline.conditional(
        3,
        "if_statement",
        "if",
        ("x", ">", "0"),
        "if (x > 0) {\n        return x;\n    }",
    );
    outline.node(5, "return_statement", "return x;");
    outline.call_statement(3, "foo", &["1", "2"]);
    let mutants = outline.language_mutants();

    let er_count = count(&mutants, "ER");
    let cr_count = count(&mutants, "CR");
    let as_count = count(&mutants, "AS");

    println!("func ER/CR/AS: {er_count}/{cr_count}/{as_count}");

    assert!(er_count > 0, "ER should be present in FunC");
    assert!(cr_count > 0, "CR should be present in FunC");
    assert_eq!(er_count, 3);
    assert_eq!(cr_count, 3);
    assert_eq!(as_count, 1);
    let swap = mutants.iter().find(|m| m.mutation_slug == "AS").expect("a swap");
    assert_eq!(outline.target().mutate(swap).unwrap(), func_src.replace("foo(1, 2)", "foo(2, 1)"));
}

#[test]
fn test_error_replacement_mutations() {
    let source = r#"
() test_func() {
    var x = 42;
    if (x > 0) {
        return x + 1;
    }
    return x - 1;
}
"#;
    let mut outline = Outline::new(source);
    outline.function();
    outline.node(3, "expression_statement", "var x = 42;");
    outline.conditional(
        3,
        "if_statement",
        "if",
        ("x", ">", "0"),
        "if (x > 0) {\n        return x + 1;\n    }",
    );
    outline.node(5, "return_statement", "return x + 1;");
    outline.binary(6, "x", "+", "1");
    outline.node(3, "return_statement", "return x - 1;");
    outline.binary(4, "x", "-", "1");
    let mutants = outline.registered_mutants();

    let er_mutants: Vec<&Mutant> = mutants.iter().filter(|m| m.mutation_slug == "ER").collect();

    assert!(!er_mutants.is_empty(), "Should generate ER mutations");

    // Check that ER mutations replace expressions with error calls
    for mutant in er_mutants {
        assert!(
            mutant.new_text.contains("throw(") || mutant.new_text.contains("error("),
            "ER mutation should contain throw or error call: {}",
            mutant.new_text
        );
    }
}

#[test]
fn test_comment_replacement_mutations() {
    let source = r#"
() test_func() {
    var x = 42;
    if (x > 0) {
        return x;
    }
    return 0;
}
"#;
    let outline = declaration_branch_return(source, "return 0;");
    let mutants = outline.registered_mutants();

    let cr_mutants: Vec<&Mutant> = mutants.iter().filter(|m| m.mutation_slug == "CR").collect();

    assert!(!cr_mutants.is_empty(), "Should generate CR mutations");

    // Check that CR mutations wrap code in comments
    for mutant in cr_mutants {
        assert!(
            mutant.new_text.starts_with("{-") && mutant.new_text.ends_with("-}"),
            "CR mutation should wrap in block comments: {}",
            mutant.new_text
        );
    }
}

#[test]
fn test_conditional_mutations() {
    let source = r#"
() test_func() {
    var x = 42;
    if (x > 0) {
        return x;
    } else {
        return 0;
    }
}
"#;
    let mut outline = Outline::new(source);
    outline.function();
    outline.node(3, "expression_statement", "var x = 42;");
    let whole = "if (x > 0) {\n        return x;\n    } else {\n        return 0;\n    }";
    outline.conditional(3, "if_statement", "if", ("x", ">", "0"), whole);
    outline.node(5, "return_statement", "return x;");
    outline.alternative(3, "{\n        return 0;\n    }");
    outline.node(5, "return_statement", "return 0;");
    let mutants = outline.registered_mutants();

    // Should have mutations that target conditional expressions
    let conditional_mutants: Vec<&Mutant> =
        mutants.iter().filter(|m| m.old_text.contains(">") || m.old_text.contains("if")).collect();

    assert!(!conditional_mutants.is_empty(), "Should generate conditional mutations");
    let forced: Vec<&Mutant> = mutants.iter().filter(|m| m.mutation_slug == "IF").collect();
    assert_eq!(forced.len(), 1);
    assert_eq!(forced[0].old_text, "(x > 0)");
    assert_eq!(forced[0].line_offset, 3);
}

#[test]
fn test_argument_swap_mutations() {
    let source = r#"
() test_func() {
    foo(1, 2);
    bar(x, y, z);
}
"#;
    let mut outline = Outline::new(source);
    outline.function();
    outline.call_statement(3, "foo", &["1", "2"]);
    outline.call_statement(3, "bar", &["x", "y", "z"]);
    let mutants = outline.registered_mutants();

    let as_mutants: Vec<&Mutant> = mutants.iter().filter(|m| m.mutation_slug == "AS").collect();

    // Each pair of neighbours is swapped once: one in `foo`, two in `bar`.
    assert_eq!(as_mutants.len(), 3);
    // A swap replaces the two arguments only, from the start of the first
    // to the end of the second, so the call is what stands around it.
    let target = outline.target();
    for mutant in as_mutants {
        let start = mutant.byte_offset as usize;
        let end = start + mutant.old_text.len();
        let call = &target.text[target.text[..start].rfind('(').unwrap()..];
        let call = &call[..call.find(')').unwrap() + 1];
        assert!(
            call.contains("(") && call.contains(")") && call.contains(mutant.old_text.as_str()),
            "AS mutation should involve function call: {}",
            mutant.old_text
        );
        assert!(target.text[end..].find(')').unwrap() < target.text[end..].find(';').unwrap());
    }
}

#[test]
fn test_variable_mutations() {
    let source = r#"
() test_func() {
    var x = 1;
    var y = 2;
    return x + y;
}
"#;
    let mut outline = Outline::new(source);
    outline.function();
    outline.node(3, "expression_statement", "var x = 1;");
    outline.node(3, "expression_statement", "var y = 2;");
    outline.node(3, "return_statement", "return x + y;");
    outline.binary(4, "x", "+", "y");
    let mutants = outline.registered_mutants();

    // Should have mutations that target variables and expressions
    let var_mutants: Vec<&Mutant> = mutants
        .iter()
        .filter(|m| {
            m.old_text.trim() == "x" || m.old_text.trim() == "y" || m.old_text.contains("+")
        })
        .collect();

    assert!(!var_mutants.is_empty(), "Should generate variable-related mutations");
}

#[test]
fn test_loop_mutations() {
    let source = r#"
() test_func() {
    var i = 0;
    while (i < 10) {
        i += 1;
    }
    return i;
}
"#;
    let mut outline = Outline::new(source);
    outline.function();
    outline.node(3, "expression_statement", "var i = 0;");
    outline.conditional(
        3,
        "while_statement",
        "while",
        ("i", "<", "10"),
        "while (i < 10) {\n        i += 1;\n    }",
    );
    outline.node(5, "expression_statement", "i += 1;");
    outline.binary(6, "i", "+=", "1");
    outline.node(3, "return_statement", "return i;");
    let mutants = outline.registered_mutants();

    // Should have mutations that target loop constructs
    let loop_mutants: Vec<&Mutant> = mutants
        .iter()
        .filter(|m| {
            m.old_text.contains("while") || m.old_text.contains("<") || m.old_text.contains("+=")
        })
        .collect();

    assert!(!loop_mutants.is_empty(), "Should generate loop-related mutations");
}

#[test]
fn test_malformed_code_handling() {
    // What a parser hands over for broken sources: error nodes, a missing
    // closing brace, and nothing at all.
    let unclosed = "() test_func() { var x = 42;";
    let mut first = Outline::new(unclosed);
    first.node(1, "function_definition", unclosed);
    first.field(2, "block_statement", "{ var x = 42;", "body");
    first.node(3, "expression_statement", "var x = 42;");
    let closing = first.tree.add_node(SyntaxNode {
        kind: "}".to_string(),
        start_byte: unclosed.len(),
        end_byte: unclosed.len(),
        parent: Some(2),
        field_name: None,
        is_named: false,
        is_missing: true,
        is_error: false,
    });
    assert_eq!(closing, 4);

    let invalid = "() test_func() { var x = ; }";
    let mut second = Outline::new(invalid);
    second.node(1, "function_definition", invalid);
    second.field(2, "block_statement", "{ var x = ; }", "body");
    second.node(3, "expression_statement", "var x = ;");
    let error = second.tree.add_node(SyntaxNode {
        kind: "ERROR".to_string(),
        start_byte: invalid.find('=').unwrap(),
        end_byte: invalid.find('=').unwrap() + 1,
        parent: Some(3),
        field_name: None,
        is_named: true,
        is_missing: false,
        is_error: true,
    });
    assert_eq!(error, 4);

    let incomplete = "() test_func() { var }";
    let mut third = Outline::new(incomplete);
    third.node(1, "ERROR", incomplete);
    third.node(2, "identifier", "var");

    let empty = Outline::new("");

    let cases = [first, second, third, empty];
    for (i, outline) in cases.iter().enumerate() {
        let target = outline.target();
        let mutants = FuncMutationEngine::new().apply_all_mutations(&target, &outline.tree);
        println!("Malformed case {}: generated {} mutations", i, mutants.len());
        for mutant in &mutants {
            assert!(mutant.byte_offset as usize + mutant.old_text.len() <= target.text.len());
            assert_ne!(mutant.old_text, mutant.new_text);
        }
    }
    let nothing = FuncLanguageEngine::new().apply_all_mutations(&cases[3].target(), &cases[3].tree);
    assert!(nothing.is_empty());
}
