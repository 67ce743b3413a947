//! The FunC engine on hand-built syntax trees of small FunC sources.

use muton::cst::{SyntaxNode, SyntaxTree};
use muton::mutations::func::engine::FuncMutationEngine;
use muton::types::language::Language;
use muton::types::mutants::Mutant;
use muton::types::targets::Target;

/// A source and the tree that is built for it node by node, in document
/// order.
struct Parsed {
    source: String,
    tree: SyntaxTree,
}

impl Parsed {
    fn new(source: &str) -> Parsed {
        let mut parsed = Parsed { source: source.to_string(), tree: SyntaxTree::new() };
        parsed.tree.add_node(SyntaxNode {
            kind: "source_file".to_string(),
            start_byte: 0,
            end_byte: source.len(),
            parent: None,
            field_name: None,
            is_named: true,
            is_missing: false,
            is_error: false,
        });
        parsed
    }

    fn start(&self, node: usize) -> usize {
        self.tree.nodes[node].start_byte
    }

    fn end(&self, node: usize) -> usize {
        self.tree.nodes[node].end_byte
    }

    /// Adds a node for the first occurrence of `text` at or after `from`.
    fn add(
        &mut self,
        kind: &str,
        text: &str,
        from: usize,
        parent: usize,
        field: Option<&str>,
        named: bool,
    ) -> usize {
        let at = from + self.source[from..].find(text).expect("text is in the source");
        self.tree.add_node(SyntaxNode {
            kind: kind.to_string(),
            start_byte: at,
            end_byte: at + text.len(),
            parent: Some(parent),
            field_name: field.map(|f| f.to_string()),
            is_named: named,
            is_missing: false,
            is_error: false,
        })
    }

    fn named(&mut self, kind: &str, text: &str, from: usize, parent: usize) -> usize {
        self.add(kind, text, from, parent, None, true)
    }

    fn field(&mut self, kind: &str, text: &str, from: usize, parent: usize, field: &str) -> usize {
        self.add(kind, text, from, parent, Some(field), true)
    }

    fn token(&mut self, text: &str, from: usize, parent: usize) -> usize {
        self.add(text, text, from, parent, None, false)
    }

    /// Adds the function that spans `text` and its body block; gives the block.
    fn function(&mut self, text: &str, from: usize) -> usize {
        let function = self.named("function_definition", text, from, 0);
        let open = self.start(function) + text.find('{').expect("a body");
        let block = self.field("block_statement", &text[text.find('{').unwrap()..], open, function, "body");
        block
    }

    /// Adds a call: the callee, then the arguments in parentheses.
    fn call(&mut self, text: &str, from: usize, parent: usize, args: &[&str]) -> usize {
        let call = self.named("function_application", text, from, parent);
        let open = text.find('(').expect("arguments");
        let callee = &text[..open];
        let mut at = self.start(call);
        self.field("identifier", callee, at, call, "function");
        let list = self.field("tensor_expression", &text[open..], at + open, call, "arguments");
        at = self.start(list);
        let paren = self.token("(", at, list);
        at = self.end(paren);
        for (n, arg) in args.iter().enumerate() {
            if n > 0 {
                let comma = self.token(",", at, list);
                at = self.end(comma);
            }
            let node = self.named("identifier", arg, at, list);
            at = self.end(node);
        }
        self.token(")", at, list);
        call
    }

    /// Adds a statement that is a conditional: keyword, condition in
    /// parentheses, block. Gives the statement and its block.
    fn conditional(
        &mut self,
        kind: &str,
        keyword: &str,
        text: &str,
        from: usize,
        parent: usize,
    ) -> (usize, usize) {
        let statement = self.named(kind, text, from, parent);
        let at = self.start(statement);
        let key = self.token(keyword, at, statement);
        let close = text.find(')').expect("a condition") + 1;
        let open = text.find('(').unwrap();
        let condition = self.field(
            "parenthesized_expression",
            &text[open..close],
            self.end(key),
            statement,
            "condition",
        );
        let brace = text.find('{').expect("a block");
        let block = self.field(
            "block_statement",
            &text[brace..],
            self.end(condition),
            statement,
            "consequent",
        );
        (statement, block)
    }

    fn target(&self) -> Target {
        Target {
            id: 1,
            path: "/tmp/test.fc".to_string(),
            file_hash: muton::types::hash::Hash::digest(self.source.clone()),
            text: self.source.clone(),
            language: Language::FunC,
        }
    }

    fn mutants(&self) -> (Target, Vec<Mutant>) {
        let target = self.target();
        let engine = FuncMutationEngine::new();
        let mutants = engine.apply_all_mutations(&target, &self.tree);
        (target, mutants)
    }
}

/// The whole source with the mutant applied.
fn mutated_content(target: &Target, mutant: &Mutant) -> String {
    assert!(mutant.byte_offset as usize + mutant.old_text.len() <= target.text.len());
    target.mutate(mutant).expect("the mutant applies")
}

/// The line of the source on which the mutant starts.
fn original_line(target: &Target, mutant: &Mutant) -> String {
    target.text.lines().nth(mutant.line_offset as usize).unwrap_or("").to_string()
}

fn with_slug<'a>(mutants: &'a [Mutant], prefix: &str) -> Vec<&'a Mutant> {
    mutants.iter().filter(|m| m.mutation_slug.starts_with(prefix)).collect()
}

/// `() test_func() { <statements> }` with one node for each statement.
fn function_of_statements(source: &str, statements: &[(&str, &str)]) -> Parsed {
    let mut parsed = Parsed::new(source);
    let text = source.trim();
    let block = parsed.function(text, 0);
    let mut at = parsed.start(block);
    for (kind, statement) in statements {
        let node = parsed.named(kind, statement, at, block);
        at = parsed.end(node);
    }
    parsed
}

#[test]
fn test_argument_swap_basic_function_call() {
    let source = r#"
() test_func() {
    var result = add(x, y);
    return result;
}
"#;
    let mut parsed = Parsed::new(source);
    let block = parsed.function(source.trim(), 0);
    let statement = parsed.named("expression_statement", "var result = add(x, y);", 0, block);
    let expression = parsed.named("expression", "var result = add(x, y)", 0, statement);
    parsed.call("add(x, y)", 0, expression, &["x", "y"]);
    parsed.named("return_statement", "return result;", 0, block);

    let (target, mutants) = parsed.mutants();

    // Should find AS mutations that swap function arguments
    let as_mutants = with_slug(&mutants, "AS");
    assert!(!as_mutants.is_empty(), "Should generate AS mutations");

    // Check that arguments are swapped
    let has_swapped = as_mutants.iter().any(|m| mutated_content(&target, m).contains("add(y, x)"));
    assert!(has_swapped, "Should swap function arguments");
}

#[test]
fn test_argument_swap_multiple_arguments() {
    let source = r#"
() test_func() {
    var result = process(a, b, c, d);
    return result;
}
"#;
    let mut parsed = Parsed::new(source);
    let block = parsed.function(source.trim(), 0);
    let statement =
        parsed.named("expression_statement", "var result = process(a, b, c, d);", 0, block);
    let expression = parsed.named("expression", "var result = process(a, b, c, d)", 0, statement);
    parsed.call("process(a, b, c, d)", 0, expression, &["a", "b", "c", "d"]);
    parsed.named("return_statement", "return result;", 0, block);

    let (target, mutants) = parsed.mutants();
    let as_mutants = with_slug(&mutants, "AS");

    assert!(!as_mutants.is_empty(), "Should generate AS mutations for multiple arguments");

    // Should generate multiple swap combinations
    assert!(as_mutants.len() >= 2, "Should generate multiple argument swap combinations");

    // Each mutation should have swapped at least one pair of adjacent arguments
    for mutant in &as_mutants {
        let content = mutated_content(&target, mutant);
        assert!(content.contains("process("), "Should preserve function name");
        assert!(
            !content.contains("process(a, b, c, d)"),
            "Should modify the original argument order"
        );
    }
    let contents: Vec<String> = as_mutants.iter().map(|m| mutated_content(&target, m)).collect();
    assert!(contents.iter().any(|c| c.contains("process(b, a, c, d)")));
    assert!(contents.iter().any(|c| c.contains("process(a, c, b, d)")));
    assert!(contents.iter().any(|c| c.contains("process(a, b, d, c)")));
}

#[test]
fn test_argument_swap_chained_calls() {
    let source = r#"
() test_func() {
    var result = first(x, y).second(a, b);
    return result;
}
"#;
    let mut parsed = Parsed::new(source);
    let block = parsed.function(source.trim(), 0);
    let statement =
        parsed.named("expression_statement", "var result = first(x, y).second(a, b);", 0, block);
    let expression =
        parsed.named("expression", "var result = first(x, y).second(a, b)", 0, statement);
    let first = parsed.call("first(x, y)", 0, expression, &["x", "y"]);
    let chained = parsed.named("method_call", ".second(a, b)", parsed.end(first), expression);
    parsed.token(".", parsed.start(chained), chained);
    parsed.call("second(a, b)", parsed.start(chained), chained, &["a", "b"]);
    parsed.named("return_statement", "return result;", 0, block);

    let (target, mutants) = parsed.mutants();
    let as_mutants = with_slug(&mutants, "AS");
    assert!(!as_mutants.is_empty());

    // Should handle chained function calls appropriately
    for mutant in &as_mutants {
        let content = mutated_content(&target, mutant);
        // Should preserve the chaining structure
        assert!(content.contains("."), "Should preserve method chaining");
        assert!(
            content.contains("first(") && content.contains("second("),
            "Should preserve both function calls"
        );
    }
}

#[test]
fn test_argument_swap_single_argument() {
    let source = r#"
() test_func() {
    var result = single_arg(x);
    return result;
}
"#;
    let mut parsed = Parsed::new(source);
    let block = parsed.function(source.trim(), 0);
    let statement = parsed.named("expression_statement", "var result = single_arg(x);", 0, block);
    let expression = parsed.named("expression", "var result = single_arg(x)", 0, statement);
    parsed.call("single_arg(x)", 0, expression, &["x"]);
    parsed.named("return_statement", "return result;", 0, block);

    let (target, mutants) = parsed.mutants();
    let as_mutants = with_slug(&mutants, "AS");

    // Should not generate AS mutations for single-argument functions
    // (or if it does, should leave the function unchanged)
    for mutant in &as_mutants {
        let content = mutated_content(&target, mutant);
        if content.contains("single_arg(x)") {
            // If targeting this line, should not change single argument calls
            assert_eq!(
                original_line(&target, mutant).trim(),
                content.lines().find(|line| line.contains("single_arg")).unwrap_or("").trim(),
                "Should not modify single argument function calls"
            );
        }
    }
    assert!(as_mutants.is_empty());
}

#[test]
fn test_comment_replacement_basic_statement() {
    let source = r#"
() test_func() {
    var x = 42;
    return x;
}
"#;
    let parsed = function_of_statements(
        source,
        &[("expression_statement", "var x = 42;"), ("return_statement", "return x;")],
    );
    let (target, mutants) = parsed.mutants();

    // Should find CR mutations that comment out statements
    let cr_mutants = with_slug(&mutants, "CR");
    assert!(!cr_mutants.is_empty(), "Should generate CR mutations");

    // Check that statements are commented out with the block comment of the dialect
    let has_comment =
        cr_mutants.iter().any(|m| mutated_content(&target, m).contains("{- var x = 42; -}"));
    assert!(has_comment, "Should comment out statements with {{- -}}");
}

#[test]
fn test_comment_replacement_preserves_existing_comments() {
    let source = r#"
() test_func() {
    ;; Existing comment
    var x = 42;
    return x;  ;; Inline comment
}
"#;
    let mut parsed = Parsed::new(source);
    let block = parsed.function(source.trim(), 0);
    parsed.named("comment", ";; Existing comment", 0, block);
    parsed.named("expression_statement", "var x = 42;", 0, block);
    parsed.named("return_statement", "return x;", 0, block);
    parsed.named("comment", ";; Inline comment", 0, block);

    let (target, mutants) = parsed.mutants();
    let cr_mutants = with_slug(&mutants, "CR");
    assert_eq!(cr_mutants.len(), 2);

    // Should preserve existing comments when commenting out code
    for mutant in &cr_mutants {
        assert!(
            mutated_content(&target, mutant).contains(";; Existing comment"),
            "Should preserve existing standalone comments"
        );
    }
}

#[test]
fn test_comment_replacement_multiple_statements() {
    let source = r#"
() test_func() {
    var a = 1;
    var b = 2;
    var c = a + b;
    return c;
}
"#;
    let parsed = function_of_statements(
        source,
        &[
            ("expression_statement", "var a = 1;"),
            ("expression_statement", "var b = 2;"),
            ("expression_statement", "var c = a + b;"),
            ("return_statement", "return c;"),
        ],
    );
    let (target, mutants) = parsed.mutants();
    let cr_mutants = with_slug(&mutants, "CR");

    // Should generate CR mutations for each statement
    assert!(cr_mutants.len() >= 3, "Should generate CR mutations for multiple statements");

    // Each mutation should comment out one statement while preserving others
    for mutant in &cr_mutants {
        let content = mutated_content(&target, mutant);
        // Should have at least one commented line
        let commented_lines = content.lines().filter(|line| line.trim().starts_with("{-")).count();
        assert!(commented_lines >= 1, "Should have at least one commented line");

        // Should preserve function structure
        assert!(content.contains("() test_func()"), "Should preserve function signature");
    }
}

#[test]
fn test_comment_replacement_doesnt_double_comment() {
    let source = r#"
() test_func() {
    ;; Already commented
    var x = 42;
}
"#;
    let mut parsed = Parsed::new(source);
    let block = parsed.function(source.trim(), 0);
    parsed.named("comment", ";; Already commented", 0, block);
    parsed.named("expression_statement", "var x = 42;", 0, block);

    let (target, mutants) = parsed.mutants();
    let cr_mutants = with_slug(&mutants, "CR");
    assert_eq!(cr_mutants.len(), 1);

    // Should not try to comment already commented lines
    for mutant in &cr_mutants {
        // Should not have lines that start with ";; ;;"
        let double_commented = mutated_content(&target, mutant)
            .lines()
            .any(|line| line.trim().starts_with(";; ;;"));
        assert!(!double_commented, "Should not double-comment already commented lines");
        assert!(!mutated_content(&target, mutant).contains("{- ;;"));
    }
}

/// A function whose body is one conditional statement with a return inside.
fn one_conditional(source: &str, kind: &str, keyword: &str, inner: &str) -> Parsed {
    let mut parsed = Parsed::new(source);
    let block = parsed.function(source.trim(), 0);
    let text = &source[source.find(keyword).unwrap()..];
    let text = &text[..text.find("}").unwrap() + 1];
    let (_, body) = parsed.conditional(kind, keyword, text, 0, block);
    parsed.named("return_statement", inner, parsed.start(body), body);
    parsed
}

#[test]
fn test_if_false_mutation() {
    let source = r#"
() test_func() {
    if (x > 0) {
        return x;
    }
}
"#;
    let parsed = one_conditional(source, "if_statement", "if", "return x;");
    let (target, mutants) = parsed.mutants();

    // Should find IF mutations that replace conditions with false
    let if_mutants = with_slug(&mutants, "IF");
    assert!(!if_mutants.is_empty(), "Should generate IF mutations");

    // Check that condition is replaced with false
    let has_false = if_mutants.iter().any(|m| mutated_content(&target, m).contains("if (false)"));
    assert!(has_false, "Should replace if condition with false");
}

#[test]
fn test_if_true_mutation() {
    let source = r#"
() test_func() {
    if (x > 0) {
        return x;
    }
}
"#;
    let parsed = one_conditional(source, "if_statement", "if", "return x;");
    let (target, mutants) = parsed.mutants();

    // Should find IT mutations that replace conditions with true
    let it_mutants = with_slug(&mutants, "IT");
    assert!(!it_mutants.is_empty(), "Should generate IT mutations");

    // Check that condition is replaced with true
    let has_true = it_mutants.iter().any(|m| mutated_content(&target, m).contains("if (true)"));
    assert!(has_true, "Should replace if condition with true");
}

#[test]
fn test_ifnot_false_mutation() {
    let source = r#"
() test_func() {
    ifnot (x > 0) {
        return 0;
    }
}
"#;
    let parsed = one_conditional(source, "ifnot_statement", "ifnot", "return 0;");
    let (target, mutants) = parsed.mutants();

    // Should find INF mutations for ifnot statements
    let inf_mutants = with_slug(&mutants, "INF");
    assert!(!inf_mutants.is_empty(), "Should generate INF mutations");

    // Check that ifnot condition is replaced with false
    let has_false =
        inf_mutants.iter().any(|m| mutated_content(&target, m).contains("ifnot (false)"));
    assert!(has_false, "Should replace ifnot condition with false");
}

#[test]
fn test_ifnot_true_mutation() {
    let source = r#"
() test_func() {
    ifnot (x > 0) {
        return 0;
    }
}
"#;
    let parsed = one_conditional(source, "ifnot_statement", "ifnot", "return 0;");
    let (target, mutants) = parsed.mutants();

    // Should find INT mutations for ifnot statements
    let int_mutants = with_slug(&mutants, "INT");
    assert!(!int_mutants.is_empty(), "Should generate INT mutations");

    // Check that ifnot condition is replaced with true
    let has_true = int_mutants.iter().any(|m| mutated_content(&target, m).contains("ifnot (true)"));
    assert!(has_true, "Should replace ifnot condition with true");
}

#[test]
fn test_complex_conditions() {
    let source = r#"
() test_func() {
    if (x > 0 && y < 10) {
        return x + y;
    }
    ifnot (z == 0 || w != 5) {
        return z * w;
    }
}
"#;
    let mut parsed = Parsed::new(source);
    let block = parsed.function(source.trim(), 0);
    let first = "if (x > 0 && y < 10) {\n        return x + y;\n    }";
    let (statement, body) = parsed.conditional("if_statement", "if", first, 0, block);
    parsed.named("return_statement", "return x + y;", parsed.start(body), body);
    let second = "ifnot (z == 0 || w != 5) {\n        return z * w;\n    }";
    let (_, body) =
        parsed.conditional("ifnot_statement", "ifnot", second, parsed.end(statement), block);
    parsed.named("return_statement", "return z * w;", parsed.start(body), body);

    let (target, mutants) = parsed.mutants();
    let conditional_mutants: Vec<&Mutant> = mutants
        .iter()
        .filter(|m| {
            m.mutation_slug.starts_with("IF")
                || m.mutation_slug.starts_with("IT")
                || m.mutation_slug.starts_with("INF")
                || m.mutation_slug.starts_with("INT")
        })
        .collect();

    assert!(!conditional_mutants.is_empty(), "Should generate conditional mutations");
    assert_eq!(conditional_mutants.len(), 4);

    // Should handle complex conditions appropriately
    for mutant in &conditional_mutants {
        let content = mutated_content(&target, mutant);
        // Should preserve function structure
        assert!(content.contains("() test_func()"), "Should preserve function signature");

        // Should have valid boolean replacement
        assert!(
            content.contains("true") || content.contains("false"),
            "Should contain boolean replacement"
        );
    }
}

#[test]
fn test_unicode_handling() {
    let source = r#"
() test_func() {
    ;; Unicode comment: 测试 🚀 Ü
    var x = "Hello 世界";
    return x;
}
"#;
    let mut parsed = Parsed::new(source);
    let block = parsed.function(source.trim(), 0);
    parsed.named("comment", ";; Unicode comment: 测试 🚀 Ü", 0, block);
    parsed.named("expression_statement", "var x = \"Hello 世界\";", 0, block);
    parsed.named("return_statement", "return x;", 0, block);

    let (target, mutants) = parsed.mutants();

    // Should handle Unicode characters properly
    assert!(!mutants.is_empty(), "Should generate mutations for Unicode content");

    for mutant in &mutants {
        let content = mutated_content(&target, mutant);
        // Should preserve Unicode characters
        if original_line(&target, mutant).contains("Unicode comment") {
            assert!(
                content.contains("测试") || content.contains("🚀") || content.contains("Ü"),
                "Should preserve Unicode characters in mutations"
            );
        }

        // Mutated content should be valid UTF-8
        assert!(
            std::str::from_utf8(content.as_bytes()).is_ok(),
            "Mutated content should be valid UTF-8"
        );
        // The edit is byte-exact.
        let start = mutant.byte_offset as usize;
        assert_eq!(&target.text[start..start + mutant.old_text.len()], mutant.old_text);
    }
}

#[test]
fn test_large_file_handling() {
    // Generate a large FunC file with many functions
    let mut large_source = String::new();
    large_source.push_str("global int counter;\n\n");

    let mut functions: Vec<String> = Vec::new();
    for i in 0..100 {
        let function = format!(
            r#"() func_{i}() {{
    var x_{i} = {i};
    var y_{i} = x_{i} + 1;
    if (y_{i} > 0) {{
        return y_{i};
    }}
    return 0;
}}"#,
            i = i
        );
        large_source.push_str(&function);
        large_source.push_str("\n\n");
        functions.push(function);
    }

    let mut parsed = Parsed::new(&large_source);
    let mut at = 0;
    for (i, function) in functions.iter().enumerate() {
        let block = parsed.function(function, at);
        let first = parsed.named("expression_statement", &format!("var x_{i} = {i};"), at, block);
        let second_text = format!("var y_{i} = x_{i} + 1;");
        let second = parsed.named("expression_statement", &second_text, parsed.end(first), block);
        let expression =
            parsed.named("expression", &format!("x_{i} + 1"), parsed.start(second), second);
        parsed.named("identifier", &format!("x_{i}"), parsed.start(expression), expression);
        parsed.token("+", parsed.start(expression), expression);
        parsed.named("number_literal", "1", parsed.start(expression) + 4, expression);
        let conditional = format!("if (y_{i} > 0) {{\n        return y_{i};\n    }}");
        let (statement, body) =
            parsed.conditional("if_statement", "if", &conditional, parsed.end(second), block);
        parsed.named("return_statement", &format!("return y_{i};"), parsed.start(body), body);
        parsed.named("return_statement", "return 0;", parsed.end(statement), block);
        at = parsed.start(block) + 1;
    }

    let start_time = std::time::Instant::now();
    let (_, mutants) = parsed.mutants();
    let duration = start_time.elapsed();

    // Should handle large files within reasonable time
    assert!(duration.as_secs() < 10, "Should process large files within 10 seconds");

    // Should generate a reasonable number of mutations
    assert!(mutants.len() > 100, "Should generate substantial mutations for large files");
    assert!(mutants.len() < 10000, "Should not generate excessive mutations");

    println!("Large file test: {} mutations in {:?}", mutants.len(), duration);
}

#[test]
fn test_deeply_nested_structures() {
    let source = r#"
() test_func() {
    if (a > 0) {
        if (b > 0) {
            if (c > 0) {
                if (d > 0) {
                    if (e > 0) {
                        return e;
                    }
                }
            }
        }
    }
    return 0;
}
"#;
    let mut parsed = Parsed::new(source);
    let mut block = parsed.function(source.trim(), 0);
    let outer = block;
    let mut last = 0;
    for name in ["a", "b", "c", "d", "e"] {
        let from = source.find(&format!("if ({name} > 0)")).unwrap();
        // The statement ends with the brace that closes its block.
        let depth = 4 * (1 + ["a", "b", "c", "d", "e"].iter().position(|n| *n == name).unwrap());
        let close = format!("\n{}}}", " ".repeat(depth));
        let end = from + source[from..].rfind(&close).unwrap() + close.len();
        let (statement, body) =
            parsed.conditional("if_statement", "if", &source[from..end], from, block);
        block = body;
        last = statement;
    }
    parsed.named("return_statement", "return e;", parsed.start(last), block);
    parsed.named("return_statement", "return 0;", parsed.start(last), outer);

    let (_, mutants) = parsed.mutants();

    // Should handle deeply nested structures
    assert!(!mutants.is_empty(), "Should handle deeply nested structures");

    // Should generate appropriate mutations for each level
    let conditional_mutants: Vec<&Mutant> = mutants
        .iter()
        .filter(|m| m.mutation_slug.starts_with("IF") || m.mutation_slug.starts_with("IT"))
        .collect();

    assert!(
        conditional_mutants.len() >= 5,
        "Should generate mutations for each nested condition"
    );
    assert_eq!(conditional_mutants.len(), 10);
    // Only the outermost statement is replaced as a whole.
    assert_eq!(with_slug(&mutants, "ER").len(), 2);
}

#[test]
fn test_very_long_lines() {
    let long_line = format!("var x = {};", "a + ".repeat(1000));
    let source = format!(
        r#"
() test_func() {{
    {long_line}
    return x;
}}
"#,
        long_line = long_line
    );
    let parsed = function_of_statements(
        &source,
        &[("expression_statement", &long_line), ("return_statement", "return x;")],
    );
    let (target, mutants) = parsed.mutants();

    // Should handle very long lines without issues
    assert!(!mutants.is_empty(), "Should handle very long lines");

    for mutant in &mutants {
        let content = mutated_content(&target, mutant);
        // Should not corrupt long lines
        assert!(content.len() > 0, "Should not produce empty mutations");

        // Should preserve function structure even with long lines
        assert!(
            content.contains("() test_func()"),
            "Should preserve function structure with long lines"
        );
    }
}

#[test]
fn test_error_replacement_basic_statement() {
    let source = r#"
() test_func() {
    var x = 42;
    return x;
}
"#;
    let parsed = function_of_statements(
        source,
        &[("expression_statement", "var x = 42;"), ("return_statement", "return x;")],
    );
    let (target, mutants) = parsed.mutants();

    // Should find ER mutations that replace statements with throw(1)
    let er_mutants = with_slug(&mutants, "ER");
    assert!(!er_mutants.is_empty(), "Should generate ER mutations");

    // Check that throw(1) replacement is present
    let has_throw = er_mutants.iter().any(|m| mutated_content(&target, m).contains("throw(1)"));
    assert!(has_throw, "Should replace statements with throw(1)");
}

#[test]
fn test_error_replacement_ignores_comments() {
    let source = r#"
() test_func() {
    ;; This is a comment
    var x = 42;  ;; Another comment
    return x;
}
"#;
    let mut parsed = Parsed::new(source);
    let block = parsed.function(source.trim(), 0);
    parsed.named("comment", ";; This is a comment", 0, block);
    parsed.named("expression_statement", "var x = 42;", 0, block);
    parsed.named("comment", ";; Another comment", 0, block);
    parsed.named("return_statement", "return x;", 0, block);

    let (target, mutants) = parsed.mutants();

    // ER mutations should not target comment lines
    let er_mutants = with_slug(&mutants, "ER");

    // Should not mutate lines that are only comments
    let comment_mutations = er_mutants
        .iter()
        .filter(|m| original_line(&target, m).trim().starts_with(";;"))
        .count();

    assert_eq!(comment_mutations, 0, "Should not mutate comment-only lines");
    assert_eq!(er_mutants.len(), 2);
}

#[test]
fn test_error_replacement_multiple_statements() {
    let source = r#"
() test_func() {
    var a = 1;
    var b = 2;
    var c = a + b;
    return c;
}
"#;
    let parsed = function_of_statements(
        source,
        &[
            ("expression_statement", "var a = 1;"),
            ("expression_statement", "var b = 2;"),
            ("expression_statement", "var c = a + b;"),
            ("return_statement", "return c;"),
        ],
    );
    let (target, mutants) = parsed.mutants();
    let er_mutants = with_slug(&mutants, "ER");

    // Should generate multiple ER mutations for each statement
    assert!(er_mutants.len() >= 3, "Should generate ER mutations for multiple statements");

    // Each mutation should preserve other statements while replacing one
    for mutant in &er_mutants {
        let content = mutated_content(&target, mutant);
        assert!(content.contains("throw(1)"), "Each ER mutation should contain throw(1)");

        // Should preserve function structure
        assert!(content.contains("() test_func()"), "Should preserve function signature");
    }
}

#[test]
fn test_error_replacement_preserves_structure() {
    let source = r#"
() test_func() {
    if (true) {
        var x = 42;
    }
}
"#;
    let mut parsed = Parsed::new(source);
    let block = parsed.function(source.trim(), 0);
    let text = "if (true) {\n        var x = 42;\n    }";
    let (_, body) = parsed.conditional("if_statement", "if", text, 0, block);
    parsed.named("expression_statement", "var x = 42;", parsed.start(body), body);

    let (target, mutants) = parsed.mutants();
    let er_mutants = with_slug(&mutants, "ER");

    assert!(!er_mutants.is_empty(), "Should generate ER mutations");

    // Verify that structure is preserved
    for mutant in &er_mutants {
        let content = mutated_content(&target, mutant);
        assert!(content.contains("() test_func()"), "Should preserve function structure");
        assert!(
            content.contains("{") && content.contains("}"),
            "Should preserve braces structure"
        );
    }
}

#[test]
fn test_loop_mutations_basic() {
    let source = r#"
() test_func() {
    repeat(10) {
        ;; do something
    }
    while (x > 0) {
        x = x - 1;
    }
}
"#;
    let mut parsed = Parsed::new(source);
    let block = parsed.function(source.trim(), 0);
    let repeat = "repeat(10) {\n        ;; do something\n    }";
    let statement = parsed.named("repeat_statement", repeat, 0, block);
    let keyword = parsed.token("repeat", parsed.start(statement), statement);
    let count =
        parsed.field("parenthesized_expression", "(10)", parsed.end(keyword), statement, "count");
    let body =
        parsed.field("block_statement", "{\n        ;; do something\n    }", parsed.end(count), statement, "body");
    parsed.named("comment", ";; do something", parsed.start(body), body);
    let looping = "while (x > 0) {\n        x = x - 1;\n    }";
    let (_, body) =
        parsed.conditional("while_statement", "while", looping, parsed.end(statement), block);
    parsed.named("expression_statement", "x = x - 1;", parsed.start(body), body);

    let (target, mutants) = parsed.mutants();

    // Should generate loop-related mutations
    let loop_mutants: Vec<&Mutant> = mutants
        .iter()
        .filter(|m| m.mutation_slug.starts_with("LI") || m.mutation_slug.starts_with("LC"))
        .collect();

    // Loop mutations are advanced features, may or may not be implemented
    println!("Generated {} loop mutations", loop_mutants.len());

    // Should preserve basic structure if mutations are generated
    for mutant in &loop_mutants {
        assert!(
            mutated_content(&target, mutant).contains("() test_func()"),
            "Should preserve function structure"
        );
    }

    // The conditions of the loops are replaced.
    let contents: Vec<String> = mutants.iter().map(|m| mutated_content(&target, m)).collect();
    assert!(contents.iter().any(|c| c.contains("repeat(0) {")));
    assert!(contents.iter().any(|c| c.contains("while (false) {")));
}

#[test]
fn test_variable_mutations_basic() {
    let source = r#"
() test_func() {
    var a = 1;
    var b = 2;
    var c = a + b;
    return c;
}
"#;
    let parsed = function_of_statements(
        source,
        &[
            ("expression_statement", "var a = 1;"),
            ("expression_statement", "var b = 2;"),
            ("expression_statement", "var c = a + b;"),
            ("return_statement", "return c;"),
        ],
    );
    let (target, mutants) = parsed.mutants();
    assert!(!mutants.is_empty());

    // The catalog has no kind of mutation that swaps or inverts
    // variables, so no mutant carries such a slug.
    let var_mutants: Vec<&Mutant> = mutants
        .iter()
        .filter(|m| m.mutation_slug.starts_with("VS") || m.mutation_slug.starts_with("VI"))
        .collect();
    assert!(var_mutants.is_empty(), "The catalog has no variable mutations");
    let engine = FuncMutationEngine::new();
    assert!(engine
        .get_mutations()
        .iter()
        .all(|m| !m.slug.starts_with("VS") && !m.slug.starts_with("VI")));

    // Should preserve basic structure
    for mutant in &mutants {
        assert!(
            mutated_content(&target, mutant).contains("() test_func()"),
            "Should preserve function structure"
        );
    }
}

#[test]
fn test_variable_scope_awareness() {
    let source = r#"
() test_func() {
    var outer = 1;
    if (true) {
        var inner = 2;
        return inner + outer;
    }
    return outer;
}
"#;
    let mut parsed = Parsed::new(source);
    let block = parsed.function(source.trim(), 0);
    let first = parsed.named("expression_statement", "var outer = 1;", 0, block);
    let text = "if (true) {\n        var inner = 2;\n        return inner + outer;\n    }";
    let (statement, body) =
        parsed.conditional("if_statement", "if", text, parsed.end(first), block);
    parsed.named("expression_statement", "var inner = 2;", parsed.start(body), body);
    parsed.named("return_statement", "return inner + outer;", parsed.start(body), body);
    parsed.named("return_statement", "return outer;", parsed.end(statement), block);

    let (_, mutants) = parsed.mutants();

    // The catalog has no variable swap, so no mutant carries its slug;
    // the statements of both scopes are mutated all the same.
    let vs_mutants = with_slug(&mutants, "VS");
    assert!(vs_mutants.is_empty(), "The catalog has no variable swap mutations");
    let replaced: Vec<&str> =
        with_slug(&mutants, "ER").iter().map(|m| m.old_text.as_str()).collect();
    assert_eq!(replaced.len(), 3);
    assert_eq!(replaced[0], "var outer = 1;");
    assert_eq!(replaced[2], "return outer;");
}
