//! The Tact engine on hand-built syntax trees of small Tact sources.

use muton::cst::{SyntaxNode, SyntaxTree};
use muton::mutations::engine_traits::MutationEngine;
use muton::mutations::get_mutations_for_language;
use muton::types::config::default_global_config;
use muton::types::language::Language;
use muton::types::mutants::Mutant;
use muton::types::targets::Target;

/// A source and a tree for it that is written down node by node, in
/// document order, each node with its depth below the root.
struct Outline {
    source: String,
    tree: SyntaxTree,
    /// The last node that was added at each depth.
    last_at: Vec<usize>,
}

impl Outline {
    fn new(source: &str) -> Outline {
        let mut tree = SyntaxTree::new();
        tree.add_node(SyntaxNode {
            kind: "source_file".to_string(),
            start_byte: 0,
            end_byte: source.len(),
            parent: None,
            field_name: None,
            is_named: true,
            is_missing: false,
            is_error: false,
        });
        Outline { source: source.to_string(), tree, last_at: vec![0] }
    }

    /// Adds a node at the depth, below the last node one level up. Its
    /// text is looked for after the node before it on its level, or from
    /// the start of its parent.
    fn node(&mut self, depth: usize, kind: &str, text: &str, field: Option<&str>) -> usize {
        assert!(depth >= 1 && depth <= self.last_at.len());
        let parent = self.last_at[depth - 1];
        let from = match self.last_at.get(depth) {
            Some(&previous) if previous > parent => self.tree.nodes[previous].end_byte,
            _ => self.tree.nodes[parent].start_byte,
        };
        let at = from + self.source[from..].find(text).expect("the text is in the source");
        let named = kind.chars().all(|c| c.is_ascii_alphanumeric() || c == '_');
        let index = self.tree.add_node(SyntaxNode {
            kind: kind.to_string(),
            start_byte: at,
            end_byte: at + text.len(),
            parent: Some(parent),
            field_name: field.map(|f| f.to_string()),
            is_named: named,
            is_missing: false,
            is_error: false,
        });
        self.last_at.truncate(depth);
        self.last_at.push(index);
        index
    }

    fn target(&self, language: Language) -> Target {
        Target {
            id: 1,
            path: "/tmp/test".to_string(),
            file_hash: muton::types::hash::Hash::digest(self.source.clone()),
            text: self.source.clone(),
            language,
        }
    }
}

/// The source after the first mutant with the slug, by offset.
fn apply_first_mutant_with_slug(target: &Target, mutants: &[Mutant], slug: &str) -> Option<String> {
    let mut found: Vec<&Mutant> = mutants.iter().filter(|m| m.mutation_slug == slug).collect();
    found.sort_by_key(|m| m.byte_offset);
    found.into_iter().next().and_then(|m| target.mutate(m).ok())
}

fn tact_mutants(outline: &Outline) -> (Target, Vec<Mutant>) {
    let target = outline.target(Language::Tact);
    let engine = get_mutations_for_language(&Language::Tact);
    let mutants = engine.apply_all_mutations(&target, &outline.tree);
    (target, mutants)
}

#[test]
fn er_replaces_single_statement_exact() {
    let source = r#"
	contract C { fun f() { let x: Int = 1; } }
	"#;
    let mut outline = Outline::new(source);
    outline.node(1, "let_statement", "let x: Int = 1;", None);
    let (target, mutants) = tact_mutants(&outline);
    let mutated = apply_first_mutant_with_slug(&target, &mutants, "ER").expect("ER mutant");
    let expected = r#"
	contract C { fun f() { require(false); } }
	"#;
    assert_eq!(mutated, expected);
}

#[test]
fn cr_wraps_statement_in_block_comment() {
    let source = r#"
	contract C { fun f() { let x: Int = 1; } }
	"#;
    let mut outline = Outline::new(source);
    outline.node(1, "let_statement", "let x: Int = 1;", None);
    let (target, mutants) = tact_mutants(&outline);
    let mutated = apply_first_mutant_with_slug(&target, &mutants, "CR").expect("CR mutant");
    let expected = r#"
	contract C { fun f() { /* let x: Int = 1; */ } }
	"#;
    assert_eq!(mutated, expected);
    let cr: Vec<&Mutant> = mutants.iter().filter(|m| m.mutation_slug == "CR").collect();
    assert_eq!(cr.len(), 1);
    assert_eq!(cr[0].new_text, "/* let x: Int = 1; */");
    assert_eq!(cr[0].old_text, "let x: Int = 1;");
}

#[test]
fn if_condition_hardcoded_false_true() {
    let source = r#"
	contract C { fun f(a: Int, b: Int) { if (a > b) { } } }
	"#;
    let mut outline = Outline::new(source);
    outline.node(1, "if_statement", "if (a > b) { }", None);
    outline.node(2, "if", "if", None);
    outline.node(2, "(", "(", None);
    outline.node(2, "binary_expression", "a > b", Some("condition"));
    outline.node(3, "identifier", "a", None);
    outline.node(3, ">", ">", None);
    outline.node(3, "identifier", "b", None);
    outline.node(2, ")", ")", None);
    let (target, mutants) = tact_mutants(&outline);
    let it = apply_first_mutant_with_slug(&target, &mutants, "IT").expect("IT mutant");
    let ifalse = apply_first_mutant_with_slug(&target, &mutants, "IF").expect("IF mutant");
    let expected_true = r#"
	contract C { fun f(a: Int, b: Int) { if (true) { } } }
	"#;
    let expected_false = r#"
	contract C { fun f(a: Int, b: Int) { if (false) { } } }
	"#;
    assert_eq!(it, expected_true);
    assert_eq!(ifalse, expected_false);
}

#[test]
fn while_condition_hardcoded_false() {
    let source = r#"
	contract C { fun f(a: Int) { while (a > 0) { } } }
	"#;
    let mut outline = Outline::new(source);
    outline.node(1, "while_statement", "while (a > 0) { }", None);
    outline.node(2, "binary_expression", "a > 0", Some("condition"));
    let (target, mutants) = tact_mutants(&outline);
    let mutated = apply_first_mutant_with_slug(&target, &mutants, "WF").expect("WF mutant");
    let expected = r#"
	contract C { fun f(a: Int) { while (false) { } } }
	"#;
    assert_eq!(mutated, expected);
}

#[test]
fn mutation_tests_argument_swap_exact() {
    let source = r#"
	contract D { fun f(a: Int, b: Int) { this.doIt(a, b); } }
	"#;
    let mut outline = Outline::new(source);
    outline.node(1, "expression_statement", "this.doIt(a, b);", None);
    outline.node(2, "method_call_expression", "this.doIt(a, b)", None);
    outline.node(3, "self", "this", Some("object"));
    outline.node(3, "identifier", "doIt", Some("name"));
    outline.node(3, "argument_list", "(a, b)", Some("arguments"));
    outline.node(4, "(", "(", None);
    outline.node(4, "argument", "a", None);
    outline.node(4, ",", ",", None);
    outline.node(4, "argument", "b", None);
    outline.node(4, ")", ")", None);
    let (target, mutants) = tact_mutants(&outline);
    let mutated = apply_first_mutant_with_slug(&target, &mutants, "AS").expect("AS mutant");
    let expected = r#"
	contract D { fun f(a: Int, b: Int) { this.doIt(b, a); } }
	"#;
    assert_eq!(mutated, expected);
}

#[test]
fn boolean_flip_exact() {
    let source = r#"
	contract E { fun f() { if (true) { } } }
	"#;
    let mut outline = Outline::new(source);
    outline.node(1, "if_statement", "if (true) { }", None);
    outline.node(2, "boolean", "true", Some("condition"));
    let (target, mutants) = tact_mutants(&outline);
    let mutated = apply_first_mutant_with_slug(&target, &mutants, "BL").expect("BL mutant");
    let expected = r#"
	contract E { fun f() { if (false) { } } }
	"#;
    assert_eq!(mutated, expected);
}

#[test]
fn ternary_condition_true_false_exact() {
    let source = r#"
	contract F { fun f(a: Int): Int { let v: Int = if (a > 0) 1 else 2; return v; } }
	"#;
    let mut outline = Outline::new(source);
    outline.node(1, "let_statement", "let v: Int = if (a > 0) 1 else 2;", None);
    outline.node(2, "ternary_expression", "if (a > 0) 1 else 2", None);
    outline.node(3, "binary_expression", "a > 0", Some("condition"));
    outline.node(1, "return_statement", "return v;", None);
    let (target, mutants) = tact_mutants(&outline);
    let tt = apply_first_mutant_with_slug(&target, &mutants, "TT").expect("TT mutant");
    let tf = apply_first_mutant_with_slug(&target, &mutants, "TF").expect("TF mutant");
    let expected_t = r#"
	contract F { fun f(a: Int): Int { let v: Int = if (true) 1 else 2; return v; } }
	"#;
    let expected_f = r#"
	contract F { fun f(a: Int): Int { let v: Int = if (false) 1 else 2; return v; } }
	"#;
    assert_eq!(tt, expected_t);
    assert_eq!(tf, expected_f);
}

#[test]
fn do_until_condition_false_exact() {
    let source = r#"
	contract G { fun f(a: Int) { do { } until (a == 0); } }
	"#;
    let mut outline = Outline::new(source);
    outline.node(1, "do_until_statement", "do { } until (a == 0);", None);
    outline.node(2, "binary_expression", "a == 0", Some("condition"));
    let (target, mutants) = tact_mutants(&outline);
    let mutated = apply_first_mutant_with_slug(&target, &mutants, "UF").expect("UF mutant");
    let expected = r#"
	contract G { fun f(a: Int) { do { } until (false); } }
	"#;
    assert_eq!(mutated, expected);
}

#[test]
fn comparison_shuffle_includes_not_equal() {
    let source = r#"
	contract H { fun f(x: Int, y: Int) { if (x == y) { } } }
	"#;
    let mut outline = Outline::new(source);
    outline.node(1, "if_statement", "if (x == y) { }", None);
    outline.node(2, "binary_expression", "x == y", Some("condition"));
    outline.node(3, "identifier", "x", None);
    outline.node(3, "==", "==", None);
    outline.node(3, "identifier", "y", None);
    // pick a COS mutant that turns == into != specifically
    let (target, mutants) = tact_mutants(&outline);
    let cos = mutants
        .iter()
        .find(|m| m.mutation_slug == "COS" && m.old_text == "==" && m.new_text == "!=");
    let mutated = cos.and_then(|m| target.mutate(m).ok()).expect("COS ==->!= mutant");
    let expected = r#"
	contract H { fun f(x: Int, y: Int) { if (x != y) { } } }
	"#;
    assert_eq!(mutated, expected);
    // One mutant for each other comparison operator, in the order of the set.
    let all: Vec<&str> = mutants
        .iter()
        .filter(|m| m.mutation_slug == "COS")
        .map(|m| m.new_text.as_str())
        .collect();
    assert_eq!(all, vec!["!=", "<", "<=", ">", ">="]);
}

#[test]
fn generates_basic_tact_mutations() {
    let source = r#"
	contract C {
		fun f(a: Int, b: Int): Int {
			let x: Int = 1;
			if (a > b) { return a; }
			while (a < b) { return b; }
			return 0;
		}
	}
	"#;
    let mut outline = Outline::new(source);
    outline.node(1, "let_statement", "let x: Int = 1;", None);
    outline.node(1, "if_statement", "if (a > b) { return a; }", None);
    outline.node(2, "binary_expression", "a > b", Some("condition"));
    outline.node(2, "return_statement", "return a;", None);
    outline.node(1, "while_statement", "while (a < b) { return b; }", None);
    outline.node(2, "binary_expression", "a < b", Some("condition"));
    outline.node(2, "return_statement", "return b;", None);
    outline.node(1, "return_statement", "return 0;", None);
    let (_, mutants) = tact_mutants(&outline);
    assert!(!mutants.is_empty(), "expected some mutants for Tact source");

    let slugs: std::collections::HashSet<_> =
        mutants.iter().map(|m| m.mutation_slug.as_str()).collect();
    // Expect a subset of core slugs to appear
    assert!(slugs.contains("ER"));
    assert!(slugs.contains("CR"));
    assert!(slugs.contains("IF"));
    assert!(slugs.contains("WF"));
    // Statements inside a statement are not replaced on their own.
    assert_eq!(mutants.iter().filter(|m| m.mutation_slug == "ER").count(), 4);
}

#[test]
fn argument_swap_on_method_and_static_calls() {
    let source = r#"
	contract D {
		fun f(): Int {
			let a: Int = 1;
			let b: Int = 2;
			// method call
			this.doIt(a, b);
			// static call
			Math::mul(a, b);
			return 0;
		}
	}
	"#;
    let mut outline = Outline::new(source);
    outline.node(1, "comment", "// method call", None);
    outline.node(1, "method_call_expression", "this.doIt(a, b)", None);
    outline.node(2, "argument_list", "(a, b)", Some("arguments"));
    outline.node(3, "(", "(", None);
    outline.node(3, "argument", "a", None);
    outline.node(3, ",", ",", None);
    outline.node(3, "argument", "b", None);
    outline.node(3, ")", ")", None);
    outline.node(1, "comment", "// static call", None);
    outline.node(1, "static_call_expression", "Math::mul(a, b)", None);
    outline.node(2, "argument_list", "(a, b)", Some("arguments"));
    outline.node(3, "(", "(", None);
    outline.node(3, "argument", "a", None);
    outline.node(3, ",", ",", None);
    outline.node(3, "argument", "b", None);
    outline.node(3, ")", ")", None);
    let (_, mutants) = tact_mutants(&outline);

    let as_mutants: Vec<_> = mutants.iter().filter(|m| m.mutation_slug == "AS").collect();
    assert!(!as_mutants.is_empty(), "expected AS mutations");
    assert_eq!(as_mutants.len(), 2);
    // Ensure swapped text contains "b, a" at least once
    assert!(as_mutants.iter().any(|m| m.new_text.contains("b, a")));
}

#[test]
fn boolean_flip_and_comparison_shuffle() {
    let source = r#"
	contract E {
		fun f(x: Int, y: Int): Int {
			if (true) { return 1; }
			if (x == y) { return 2; }
			return 0;
		}
	}
	"#;
    let mut outline = Outline::new(source);
    outline.node(1, "if_statement", "if (true) { return 1; }", None);
    outline.node(2, "boolean", "true", Some("condition"));
    outline.node(1, "if_statement", "if (x == y) { return 2; }", None);
    outline.node(2, "binary_expression", "x == y", Some("condition"));
    outline.node(3, "==", "==", None);
    let (_, mutants) = tact_mutants(&outline);

    let bl = mutants
        .iter()
        .any(|m| m.mutation_slug == "BL" && (m.old_text == "true" || m.old_text == "false"));
    assert!(bl, "expected BL boolean flip mutants");

    let cos = mutants.iter().any(|m| m.mutation_slug == "COS");
    assert!(cos, "expected COS comparison operator shuffle mutants");
}

#[test]
fn ternary_and_do_until_mutations() {
    let source = r#"
	contract F {
		fun f(a: Int): Int {
			let v: Int = if (a > 0) 1 else 2;
			do { } until (a == 0);
			return v;
		}
	}
	"#;
    let mut outline = Outline::new(source);
    outline.node(1, "let_statement", "let v: Int = if (a > 0) 1 else 2;", None);
    outline.node(2, "ternary_expression", "if (a > 0) 1 else 2", None);
    outline.node(3, "binary_expression", "a > 0", Some("condition"));
    outline.node(1, "do_until_statement", "do { } until (a == 0);", None);
    outline.node(2, "binary_expression", "a == 0", Some("condition"));
    let (_, mutants) = tact_mutants(&outline);

    let tt = mutants.iter().any(|m| m.mutation_slug == "TT");
    let tf = mutants.iter().any(|m| m.mutation_slug == "TF");
    let uf = mutants.iter().any(|m| m.mutation_slug == "UF");
    assert!(tt && tf && uf, "expected TT, TF, and UF mutants");
}

#[test]
fn tact_mutations_ignore_comment_regions() {
    let source = r#"
// if (true) { require(false); }
// let x: Int = 1 + 2;
// if (1 < 2) { let y: Int = 3; }
// this.callMe(10, 20);
// while (true) { break; }
contract C {
    init() { }
    receive("hello") { }
    fun f(a: Int, b: Int): Int {
        return a + b;
    }
}
"#;

    // NOTE: Keep this list in sync with source above.
    // Lines are 0-based and refer to fully-commented lines only.
    let commented_lines: &[usize] = &[1, 2, 3, 4, 5];

    // A parser that looked into comments would give the nodes below the
    // comments; the engine passes over them all the same.
    let mut outline = Outline::new(source);
    outline.node(1, "comment", "// if (true) { require(false); }", None);
    outline.node(2, "if_statement", "if (true) { require(false); }", None);
    outline.node(3, "if", "if", None);
    outline.node(3, "parenthesized_expression", "(true)", Some("condition"));
    outline.node(4, "boolean", "true", None);
    outline.node(3, "block_statement", "{ require(false); }", Some("consequence"));
    outline.node(4, "expression_statement", "require(false);", None);
    outline.node(5, "boolean", "false", None);
    outline.node(1, "comment", "// let x: Int = 1 + 2;", None);
    outline.node(2, "let_statement", "let x: Int = 1 + 2;", None);
    outline.node(3, "binary_expression", "1 + 2", Some("value"));
    outline.node(4, "integer", "1", None);
    outline.node(4, "+", "+", None);
    outline.node(4, "integer", "2", None);
    outline.node(1, "comment", "// if (1 < 2) { let y: Int = 3; }", None);
    outline.node(2, "if_statement", "if (1 < 2) { let y: Int = 3; }", None);
    outline.node(3, "if", "if", None);
    outline.node(3, "parenthesized_expression", "(1 < 2)", Some("condition"));
    outline.node(4, "binary_expression", "1 < 2", None);
    outline.node(5, "integer", "1", None);
    outline.node(5, "<", "<", None);
    outline.node(5, "integer", "2", None);
    outline.node(3, "block_statement", "{ let y: Int = 3; }", Some("consequence"));
    outline.node(4, "let_statement", "let y: Int = 3;", None);
    outline.node(1, "comment", "// this.callMe(10, 20);", None);
    outline.node(2, "expression_statement", "this.callMe(10, 20);", None);
    outline.node(3, "method_call_expression", "this.callMe(10, 20)", None);
    outline.node(4, "self", "this", Some("object"));
    outline.node(4, "identifier", "callMe", Some("name"));
    outline.node(4, "argument_list", "(10, 20)", Some("arguments"));
    outline.node(5, "(", "(", None);
    outline.node(5, "argument", "10", None);
    outline.node(5, ",", ",", None);
    outline.node(5, "argument", "20", None);
    outline.node(5, ")", ")", None);
    outline.node(1, "comment", "// while (true) { break; }", None);
    outline.node(2, "while_statement", "while (true) { break; }", None);
    outline.node(3, "while", "while", None);
    outline.node(3, "parenthesized_expression", "(true)", Some("condition"));
    outline.node(4, "boolean", "true", None);
    outline.node(3, "block_statement", "{ break; }", Some("body"));
    outline.node(4, "break_statement", "break;", None);
    let contract = &source[source.find("contract C").unwrap()..];
    outline.node(1, "contract", contract.trim_end(), None);
    outline.node(2, "contract_body", &contract[contract.find('{').unwrap()..].trim_end(), None);
    outline.node(3, "init_function", "init() { }", None);
    outline.node(4, "function_body", "{ }", Some("body"));
    outline.node(3, "receive_function", "receive(\"hello\") { }", None);
    outline.node(4, "string", "\"hello\"", Some("parameter"));
    outline.node(4, "function_body", "{ }", Some("body"));
    let function = "fun f(a: Int, b: Int): Int {\n        return a + b;\n    }";
    outline.node(3, "storage_function", function, None);
    outline.node(4, "function_body", &function[function.find('{').unwrap()..], Some("body"));
    outline.node(5, "return_statement", "return a + b;", None);
    outline.node(6, "binary_expression", "a + b", None);
    outline.node(7, "identifier", "a", None);
    outline.node(7, "+", "+", None);
    outline.node(7, "identifier", "b", None);

    let (_, mutants) = tact_mutants(&outline);
    assert!(!mutants.is_empty());

    // Ensure none of the mutants originate from commented content (line or block)
    for m in &mutants {
        let line = m.line_offset as usize;
        assert!(
            !commented_lines.contains(&line),
            "mutated on commented line: slug={} line={}",
            m.mutation_slug,
            line,
        );
    }

    // Ensure CR does not double-wrap block-commented content
    let cr_nested =
        mutants.iter().any(|m| m.mutation_slug == "CR" && m.new_text.contains("/* /*"));
    assert!(!cr_nested, "CR should not double-wrap commented content");
}

#[test]
fn end_to_end_generate_mutants_tact() {
    let source = r#"
	contract G {
		fun f(a: Int, b: Int): Int {
			if (a != b) {
				return a;
			}
			return b;
		}
	}
	"#;
    let mut outline = Outline::new(source);
    outline.node(1, "contract", source.trim(), None);
    let whole = "if (a != b) {\n\t\t\t\treturn a;\n\t\t\t}";
    outline.node(2, "if_statement", whole, None);
    outline.node(3, "if", "if", None);
    outline.node(3, "parenthesized_expression", "(a != b)", Some("condition"));
    outline.node(4, "binary_expression", "a != b", None);
    outline.node(5, "identifier", "a", None);
    outline.node(5, "!=", "!=", None);
    outline.node(5, "identifier", "b", None);
    outline.node(3, "block_statement", "{\n\t\t\t\treturn a;\n\t\t\t}", Some("consequence"));
    outline.node(4, "return_statement", "return a;", None);
    outline.node(2, "return_statement", "return b;", None);
    let mut target = outline.target(Language::Tact);
    target.path = "/tmp/g.tact".to_string();

    let mutants = target.generate_mutants(&outline.tree, &default_global_config()).expect("mutants");
    assert!(mutants.len() > 0, "expected at least one mutant");

    // Mutating content should succeed
    let mutated = target.mutate(&mutants[0]).expect("mutated content");
    assert_ne!(mutated, target.text);
}

#[test]
fn conditions_are_found_without_a_field_name() {
    let source = "contract C { fun f() { if (a) { } while b { } } }";
    let mut outline = Outline::new(source);
    outline.node(1, "if_statement", "if (a) { }", None);
    outline.node(2, "if", "if", None);
    outline.node(2, "parenthesized_expression", "(a)", None);
    outline.node(2, "block_statement", "{ }", None);
    outline.node(1, "while_statement", "while b { }", None);
    outline.node(2, "while", "while", None);
    outline.node(2, "identifier", "b", None);
    outline.node(2, "block_statement", "{ }", None);
    let (target, mutants) = tact_mutants(&outline);
    let forced = apply_first_mutant_with_slug(&target, &mutants, "IF").expect("IF mutant");
    assert_eq!(forced, "contract C { fun f() { if (false) { } while b { } } }");
    let forced = apply_first_mutant_with_slug(&target, &mutants, "IT").expect("IT mutant");
    assert_eq!(forced, "contract C { fun f() { if (true) { } while b { } } }");
    let forced = apply_first_mutant_with_slug(&target, &mutants, "WF").expect("WF mutant");
    assert_eq!(forced, "contract C { fun f() { if (a) { } while false { } } }");
}
