//! The Tolk language engine on hand-built syntax trees.

use muton::cst::{SyntaxNode, SyntaxTree};
use muton::languages::tolk::engine::TolkLanguageEngine;
use muton::languages::LanguageEngine;
use muton::types::language::Language;
use muton::types::mutants::Mutant;
use muton::types::targets::Target;
use std::collections::HashSet;

/// A source and a tree for it that is written down node by node, in
/// document order, each node with its depth below the root.
struct Outline {
    source: String,
    tree: SyntaxTree,
    /// The last node that was added at each depth.
    last_at: Vec<usize>,
}

impl Outline {
    fn new(source: &str) -> Outline {
        let mut tree = SyntaxTree::new();
        tree.add_node(SyntaxNode {
            kind: "source_file".to_string(),
            start_byte: 0,
            end_byte: source.len(),
            parent: None,
            field_name: None,
            is_named: true,
            is_missing: false,
            is_error: false,
        });
        Outline { source: source.to_string(), tree, last_at: vec![0] }
    }

    /// Adds a node at the depth, below the last node one level up. Its
    /// text is looked for after the node before it on its level, or from
    /// the start of its parent.
    fn node(&mut self, depth: usize, kind: &str, text: &str, field: Option<&str>) -> usize {
        assert!(depth >= 1 && depth <= self.last_at.len());
        let parent = self.last_at[depth - 1];
        let from = match self.last_at.get(depth) {
            Some(&previous) if previous > parent => self.tree.nodes[previous].end_byte,
            _ => self.tree.nodes[parent].start_byte,
        };
        let at = from + self.source[from..].find(text).expect("the text is in the source");
        let named = kind.chars().all(|c| c.is_ascii_alphanumeric() || c == '_');
        let index = self.tree.add_node(SyntaxNode {
            kind: kind.to_string(),
            start_byte: at,
            end_byte: at + text.len(),
            parent: Some(parent),
            field_name: field.map(|f| f.to_string()),
            is_named: named,
            is_missing: false,
            is_error: false,
        });
        self.last_at.truncate(depth);
        self.last_at.push(index);
        index
    }

    fn target(&self, language: Language) -> Target {
        Target {
            id: 1,
            path: "/tmp/test".to_string(),
            file_hash: muton::types::hash::Hash::digest(self.source.clone()),
            text: self.source.clone(),
            language,
        }
    }
}

/// The source after the first mutant with the slug, by offset.
fn apply_first_mutant_with_slug(target: &Target, mutants: &[Mutant], slug: &str) -> Option<String> {
    let mut found: Vec<&Mutant> = mutants.iter().filter(|m| m.mutation_slug == slug).collect();
    found.sort_by_key(|m| m.byte_offset);
    found.into_iter().next().and_then(|m| target.mutate(m).ok())
}

fn tolk_mutants(outline: &Outline) -> (Target, Vec<Mutant>) {
    let target = outline.target(Language::Tolk);
    let engine = TolkLanguageEngine::new();
    let mutants = LanguageEngine::apply_all_mutations(&engine, &target, &outline.tree);
    (target, mutants)
}

#[test]
fn test_basic_mutations() {
    let source = r#"
fun test_func(x: int): int {
    if (x > 0) {
        return x;
    }
    return 0;
}
"#;
    let mut outline = Outline::new(source);
    outline.node(1, "if_statement", "if (x > 0) {\n        return x;\n    }", None);
    outline.node(2, "if", "if", None);
    outline.node(2, "parenthesized_expression", "(x > 0)", Some("condition"));
    outline.node(3, "binary_operator", "x > 0", None);
    outline.node(4, "identifier", "x", Some("left"));
    outline.node(4, ">", ">", Some("operator_name"));
    outline.node(4, "number_literal", "0", Some("right"));
    outline.node(2, "block_statement", "{\n        return x;\n    }", Some("body"));
    outline.node(3, "return_statement", "return x;", None);
    outline.node(1, "return_statement", "return 0;", None);
    let (target, mutants) = tolk_mutants(&outline);

    println!("Generated {} mutations", mutants.len());

    // Should generate some mutations
    assert!(!mutants.is_empty(), "Should generate mutations for basic Tolk code");

    // Check mutation types
    let mutation_slugs: HashSet<_> = mutants.iter().map(|m| m.mutation_slug.as_str()).collect();

    println!("Mutation types: {mutation_slugs:?}");

    // Should generate diverse mutation types (IF, IT, ER, CR, COS, etc.)
    assert!(mutation_slugs.len() > 2, "Should generate diverse mutation types");
    for slug in ["ER", "CR", "IF", "IT", "COS"] {
        assert!(mutation_slugs.contains(slug), "{slug} is missing");
    }
    let er = apply_first_mutant_with_slug(&target, &mutants, "ER").expect("ER mutant");
    assert!(er.contains("    throw 1;\n    return 0;"));
}

#[test]
fn test_if_statement_mutations() {
    let source = r#"
fun check(val: bool): int {
    if (val) {
        return 1;
    }
    return 0;
}
"#;
    let mut outline = Outline::new(source);
    outline.node(1, "if_statement", "if (val) {\n        return 1;\n    }", None);
    outline.node(2, "if", "if", None);
    outline.node(2, "parenthesized_expression", "(val)", Some("condition"));
    outline.node(2, "block_statement", "{\n        return 1;\n    }", Some("body"));
    outline.node(1, "return_statement", "return 0;", None);
    let (target, mutants) = tolk_mutants(&outline);

    // Should have IF and IT mutations
    let if_mutants: Vec<_> =
        mutants.iter().filter(|m| m.mutation_slug == "IF" || m.mutation_slug == "IT").collect();

    assert!(!if_mutants.is_empty(), "Should generate IF/IT mutations for if statements");
    // The parentheses of the condition stay.
    let mutated = apply_first_mutant_with_slug(&target, &mutants, "IF").expect("IF mutant");
    assert!(mutated.contains("if (false) {"));
    let mutated = apply_first_mutant_with_slug(&target, &mutants, "IT").expect("IT mutant");
    assert!(mutated.contains("if (true) {"));
}

#[test]
fn test_operator_mutations() {
    let source = r#"
fun calculate(a: int, b: int): int {
    var sum = a + b;
    var diff = a - b;
    var prod = a * b;
    return sum;
}
"#;
    let mut outline = Outline::new(source);
    for (statement, expression, operator) in [
        ("var sum = a + b;", "a + b", "+"),
        ("var diff = a - b;", "a - b", "-"),
        ("var prod = a * b;", "a * b", "*"),
    ] {
        outline.node(1, "expression_statement", statement, None);
        outline.node(2, "binary_operator", expression, None);
        outline.node(3, "identifier", "a", Some("left"));
        outline.node(3, operator, operator, Some("operator_name"));
        outline.node(3, "identifier", "b", Some("right"));
    }
    outline.node(1, "return_statement", "return sum;", None);
    let (_, mutants) = tolk_mutants(&outline);

    // Should have arithmetic operator mutations (AOS)
    let aos_mutants: Vec<_> = mutants.iter().filter(|m| m.mutation_slug == "AOS").collect();

    assert!(!aos_mutants.is_empty(), "Should generate AOS mutations for arithmetic operators");
    // Three operators, three other operators for each.
    assert_eq!(aos_mutants.len(), 9);
    let of_plus: Vec<&str> = aos_mutants
        .iter()
        .filter(|m| m.old_text == "+")
        .map(|m| m.new_text.as_str())
        .collect();
    assert_eq!(of_plus, vec!["-", "*", "/"]);
}

#[test]
fn test_boolean_literal_mutations() {
    let source = r#"
fun isActive(): bool {
    var active = true;
    var inactive = false;
    return active;
}
"#;
    let mut outline = Outline::new(source);
    outline.node(1, "expression_statement", "var active = true;", None);
    outline.node(2, "boolean_literal", "true", None);
    outline.node(1, "expression_statement", "var inactive = false;", None);
    outline.node(2, "boolean_literal", "false", None);
    outline.node(1, "return_statement", "return active;", None);
    let (_, mutants) = tolk_mutants(&outline);

    // Should have boolean literal mutations (BL)
    let bl_mutants: Vec<_> = mutants.iter().filter(|m| m.mutation_slug == "BL").collect();

    assert!(!bl_mutants.is_empty(), "Should generate BL mutations for boolean literals");
    assert_eq!(bl_mutants.len(), 2);
    assert_eq!((bl_mutants[0].old_text.as_str(), bl_mutants[0].new_text.as_str()), ("true", "false"));
    assert_eq!((bl_mutants[1].old_text.as_str(), bl_mutants[1].new_text.as_str()), ("false", "true"));
}

#[test]
fn test_while_loop_mutations() {
    let source = r#"
fun loop_test(n: int): int {
    var i = 0;
    while (i < n) {
        i = i + 1;
    }
    return i;
}
"#;
    let mut outline = Outline::new(source);
    outline.node(1, "expression_statement", "var i = 0;", None);
    outline.node(1, "while_statement", "while (i < n) {\n        i = i + 1;\n    }", None);
    outline.node(2, "while", "while", None);
    outline.node(2, "parenthesized_expression", "(i < n)", Some("condition"));
    outline.node(2, "block_statement", "{\n        i = i + 1;\n    }", Some("body"));
    outline.node(3, "expression_statement", "i = i + 1;", None);
    outline.node(1, "return_statement", "return i;", None);
    let (target, mutants) = tolk_mutants(&outline);

    // Should have while false mutations (WF)
    let wf_mutants: Vec<_> = mutants.iter().filter(|m| m.mutation_slug == "WF").collect();

    assert!(!wf_mutants.is_empty(), "Should generate WF mutations for while loops");
    let mutated = apply_first_mutant_with_slug(&target, &mutants, "WF").expect("WF mutant");
    assert!(mutated.contains("while (false) {"));
}

#[test]
fn test_engine_properties() {
    let engine = TolkLanguageEngine::new();

    assert_eq!(engine.name(), "Tolk");
    assert_eq!(engine.extensions(), &["tolk"]);
    assert!(!LanguageEngine::get_mutations(&engine).is_empty());
}

#[test]
fn loop_control_is_swapped_both_ways() {
    let source = "fun f() { while (true) { if (a) { break; } continue; } }";
    let mut outline = Outline::new(source);
    outline.node(1, "break_statement", "break", None);
    outline.node(1, "continue_statement", "continue", None);
    let (_, mutants) = tolk_mutants(&outline);
    let lc: Vec<(&str, &str)> = mutants
        .iter()
        .filter(|m| m.mutation_slug == "LC")
        .map(|m| (m.old_text.as_str(), m.new_text.as_str()))
        .collect();
    assert_eq!(lc, vec![("break", "continue"), ("continue", "break")]);
}
