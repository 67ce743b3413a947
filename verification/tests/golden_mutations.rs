//! Exact edits of the engines on hand-built syntax trees: for a given
//! source, the mutant that is expected and the text that it gives.

use muton::cst::{SyntaxNode, SyntaxTree};
use muton::languages::func::engine::FuncLanguageEngine;
use muton::languages::tact::engine::TactLanguageEngine;
use muton::mutations::engine_traits::MutationEngine;
use muton::mutations::get_mutations_for_language;
use muton::types::config::default_global_config;
use muton::types::language::Language;
use muton::types::mutants::Mutant;
use muton::types::targets::Target;

/// A source and a tree for it that is written down node by node, in
/// document order, each node with its depth below the root.
struct Outline {
    source: String,
    tree: SyntaxTree,
    /// The last node that was added at each depth.
    last_at: Vec<usize>,
}

impl Outline {
    fn new(source: &str) -> Outline {
        let mut tree = SyntaxTree::new();
        tree.add_node(SyntaxNode {
            kind: "source_file".to_string(),
            start_byte: 0,
            end_byte: source.len(),
            parent: None,
            field_name: None,
            is_named: true,
            is_missing: false,
            is_error: false,
        });
        Outline { source: source.to_string(), tree, last_at: vec![0] }
    }

    /// Adds a node at the depth, below the last node one level up. Its
    /// text is looked for after the node before it on its level, or from
    /// the start of its parent.
    fn node(&mut self, depth: usize, kind: &str, text: &str, field: Option<&str>) -> usize {
        assert!(depth >= 1 && depth <= self.last_at.len());
        let parent = self.last_at[depth - 1];
        let from = match self.last_at.get(depth) {
            Some(&previous) if previous > parent => self.tree.nodes[previous].end_byte,
            _ => self.tree.nodes[parent].start_byte,
        };
        let at = from + self.source[from..].find(text).expect("the text is in the source");
        let named = kind.chars().all(|c| c.is_ascii_alphanumeric() || c == '_');
        let index = self.tree.add_node(SyntaxNode {
            kind: kind.to_string(),
            start_byte: at,
            end_byte: at + text.len(),
            parent: Some(parent),
            field_name: field.map(|f| f.to_string()),
            is_named: named,
            is_missing: false,
            is_error: false,
        });
        self.last_at.truncate(depth);
        self.last_at.push(index);
        index
    }

    fn target(&self, language: Language) -> Target {
        Target {
            id: 1,
            path: "/tmp/test".to_string(),
            file_hash: muton::types::hash::Hash::digest(self.source.clone()),
            text: self.source.clone(),
            language,
        }
    }
}

/// The source after the first mutant with the slug, by offset.
fn apply_first_mutant_with_slug(target: &Target, mutants: &[Mutant], slug: &str) -> Option<String> {
    let mut found: Vec<&Mutant> = mutants.iter().filter(|m| m.mutation_slug == slug).collect();
    found.sort_by_key(|m| m.byte_offset);
    found.into_iter().next().and_then(|m| target.mutate(m).ok())
}

fn func_mutants(outline: &Outline) -> (Target, Vec<Mutant>) {
    let target = outline.target(Language::FunC);
    let engine = get_mutations_for_language(&Language::FunC);
    let mutants = engine.apply_all_mutations(&target, &outline.tree);
    (target, mutants)
}

fn count(mutants: &[Mutant], slug: &str) -> usize {
    mutants.iter().filter(|m| m.mutation_slug == slug).count()
}

#[test]
fn er_replaces_statement_with_throw1() {
    let source = r#"
	() test_func() {
		var x = 42;
	}
	"#;
    let mut outline = Outline::new(source);
    outline.node(1, "expression_statement", "var x = 42;", None);
    let (target, mutants) = func_mutants(&outline);
    let mutated = apply_first_mutant_with_slug(&target, &mutants, "ER").expect("ER mutant");
    let expected = r#"
	() test_func() {
		throw(1);
	}
	"#;
    assert_eq!(mutated, expected);
}

#[test]
fn cr_comments_statement_with_double_semicolon() {
    let source = r#"
	() test_func() {
		var x = 42;
	}
	"#;
    let mut outline = Outline::new(source);
    outline.node(1, "expression_statement", "var x = 42;", None);
    let (target, mutants) = func_mutants(&outline);
    let mutated = apply_first_mutant_with_slug(&target, &mutants, "CR").expect("CR mutant");
    // The statement is wrapped in the block comment of the dialect.
    let expected = r#"
	() test_func() {
		{- var x = 42; -}
	}
	"#;
    assert_eq!(mutated, expected);
}

#[test]
fn if_condition_true_false() {
    let source = r#"
	() test_func() {
		if (x > 0) {
		}
	}
	"#;
    let mut outline = Outline::new(source);
    outline.node(1, "if_statement", "if (x > 0) {\n\t\t}", None);
    outline.node(2, "if", "if", None);
    outline.node(2, "parenthesized_expression", "(x > 0)", Some("condition"));
    let (target, mutants) = func_mutants(&outline);
    let m_true = apply_first_mutant_with_slug(&target, &mutants, "IT").expect("IT mutant");
    let m_false = apply_first_mutant_with_slug(&target, &mutants, "IF").expect("IF mutant");
    let expected_true = r#"
	() test_func() {
		if (true) {
		}
	}
	"#;
    let expected_false = r#"
	() test_func() {
		if (false) {
		}
	}
	"#;
    assert_eq!(m_true, expected_true);
    assert_eq!(m_false, expected_false);
}

#[test]
fn while_condition_false_and_repeat_zero() {
    let source_w = r#"
	() test_func() {
		while (x > 0) {
		}
	}
	"#;
    let mut outline = Outline::new(source_w);
    outline.node(1, "while_statement", "while (x > 0) {\n\t\t}", None);
    outline.node(2, "while", "while", None);
    // The condition fills no field: it is found as the first named
    // child that is no keyword.
    outline.node(2, "parenthesized_expression", "(x > 0)", None);
    let (target, mutants) = func_mutants(&outline);
    let mw = apply_first_mutant_with_slug(&target, &mutants, "WF").expect("WF mutant");
    let expected_w = r#"
	() test_func() {
		while (false) {
		}
	}
	"#;
    assert_eq!(mw, expected_w);

    let source_r = r#"
	() test_func() {
		repeat(10) {
		}
	}
	"#;
    let mut outline = Outline::new(source_r);
    outline.node(1, "repeat_statement", "repeat(10) {\n\t\t}", None);
    outline.node(2, "repeat", "repeat", None);
    outline.node(2, "parenthesized_expression", "(10)", Some("count"));
    let (target, mutants) = func_mutants(&outline);
    let mr = apply_first_mutant_with_slug(&target, &mutants, "RZ").expect("RZ mutant");
    let expected_r = r#"
	() test_func() {
		repeat(0) {
		}
	}
	"#;
    assert_eq!(mr, expected_r);
}

#[test]
fn golden_mutations_argument_swap_exact() {
    let source = r#"
	() test_func(int a, int b) {
		foo(a, b);
	}
	"#;
    let mut outline = Outline::new(source);
    outline.node(1, "expression_statement", "foo(a, b);", None);
    outline.node(2, "function_application", "foo(a, b)", None);
    outline.node(3, "identifier", "foo", Some("function"));
    outline.node(3, "tensor_expression", "(a, b)", Some("arguments"));
    outline.node(4, "(", "(", None);
    outline.node(4, "identifier", "a", None);
    outline.node(4, ",", ",", None);
    outline.node(4, "identifier", "b", None);
    outline.node(4, ")", ")", None);
    let (target, mutants) = func_mutants(&outline);
    let mutated = apply_first_mutant_with_slug(&target, &mutants, "AS").expect("AS mutant");
    let expected = r#"
	() test_func(int a, int b) {
		foo(b, a);
	}
	"#;
    assert_eq!(mutated, expected);
}

#[test]
fn argument_list_is_found_by_its_kind_where_no_field_names_it() {
    let source = "() f() { foo(a, b, c); }";
    let mut outline = Outline::new(source);
    outline.node(1, "call_expression", "foo(a, b, c)", None);
    outline.node(2, "identifier", "foo", None);
    outline.node(2, "argument_list", "(a, b, c)", None);
    outline.node(3, "(", "(", None);
    outline.node(3, "identifier", "a", None);
    outline.node(3, ",", ",", None);
    outline.node(3, "identifier", "b", None);
    outline.node(3, ",", ",", None);
    outline.node(3, "identifier", "c", None);
    outline.node(3, ")", ")", None);
    let (target, mutants) = func_mutants(&outline);
    let swapped: Vec<String> = mutants
        .iter()
        .filter(|m| m.mutation_slug == "AS")
        .map(|m| target.mutate(m).unwrap())
        .collect();
    assert_eq!(swapped, vec!["() f() { foo(b, a, c); }", "() f() { foo(a, c, b); }"]);
}

#[test]
fn store_calls_have_their_first_argument_zeroed() {
    let source = "() f() { b.store_uint(5, 32); c.store_coins(amount); load(5); }";
    let mut outline = Outline::new(source);
    outline.node(1, "method_call", ".store_uint(5, 32)", None);
    outline.node(2, "identifier", ".store_uint", None);
    outline.node(2, "argument_list", "(5, 32)", Some("arguments"));
    outline.node(3, "(", "(", None);
    outline.node(3, "number_literal", "5", None);
    outline.node(3, ",", ",", None);
    outline.node(3, "number_literal", "32", None);
    outline.node(3, ")", ")", None);
    outline.node(1, "method_call", ".store_coins(amount)", None);
    outline.node(2, "identifier", ".store_coins", None);
    outline.node(2, "argument_list", "(amount)", None);
    outline.node(3, "(", "(", None);
    outline.node(3, "identifier", "amount", None);
    outline.node(3, ")", ")", None);
    outline.node(1, "function_application", "load(5)", None);
    outline.node(2, "identifier", "load", None);
    outline.node(2, "argument_list", "(5)", Some("arguments"));
    outline.node(3, "(", "(", None);
    outline.node(3, "number_literal", "5", None);
    outline.node(3, ")", ")", None);
    let (target, mutants) = func_mutants(&outline);
    let su = apply_first_mutant_with_slug(&target, &mutants, "SU").expect("SU mutant");
    assert_eq!(su, "() f() { b.store_uint(0, 32); c.store_coins(amount); load(5); }");
    let sc = apply_first_mutant_with_slug(&target, &mutants, "SC").expect("SC mutant");
    assert_eq!(sc, "() f() { b.store_uint(5, 32); c.store_coins(0); load(5); }");
    assert_eq!(count(&mutants, "SU"), 1);
    assert_eq!(count(&mutants, "SC"), 1);
    assert_eq!(count(&mutants, "SI"), 0);
}

#[test]
fn statements_that_throw_already_are_not_replaced() {
    let source = "() f() { throw(5); var x = 1; }";
    let mut outline = Outline::new(source);
    outline.node(1, "expression_statement", "throw(5);", None);
    outline.node(1, "expression_statement", "var x = 1;", None);
    let (_, mutants) = func_mutants(&outline);
    let er: Vec<&str> = mutants
        .iter()
        .filter(|m| m.mutation_slug == "ER")
        .map(|m| m.old_text.as_str())
        .collect();
    assert_eq!(er, vec!["var x = 1;"]);
    assert_eq!(count(&mutants, "CR"), 2);
}

#[test]
fn func_mutations_ignore_comment_regions() {
    let source = r#"()
main() {
    ;; if (true) { throw(1); }
    {- let y = 10; -}
    var x = 1;
    if (x > 0) { return x; }
}
"#;
    // NOTE: Keep this list in sync with source above.
    // Lines are 0-based and refer to fully-commented lines only.
    let commented_lines: &[usize] = &[2, 3];
    let mut outline = Outline::new(source);
    outline.node(1, "comment", ";; if (true) { throw(1); }", None);
    outline.node(2, "if_statement", "if (true) { throw(1); }", None);
    outline.node(3, "boolean", "true", Some("condition"));
    outline.node(1, "comment", "{- let y = 10; -}", None);
    outline.node(2, "expression_statement", "let y = 10;", None);
    outline.node(1, "expression_statement", "var x = 1;", None);
    outline.node(1, "if_statement", "if (x > 0) { return x; }", None);
    outline.node(2, "parenthesized_expression", "(x > 0)", Some("condition"));
    outline.node(2, "return_statement", "return x;", None);
    let (_, mutants) = func_mutants(&outline);
    assert!(!mutants.is_empty());

    for m in &mutants {
        let line = m.line_offset as usize;
        assert!(
            !commented_lines.contains(&line),
            "mutated on commented line: slug={} line={}",
            m.mutation_slug,
            line,
        );
    }

    // Ensure CR does not double-wrap block-commented content
    let cr_nested =
        mutants.iter().any(|m| m.mutation_slug == "CR" && m.new_text.contains("{- {-"));
    assert!(!cr_nested, "CR should not double-wrap commented content");
}

#[test]
fn cross_language_shared_slugs_presence_and_counts() {
    // FunC sample with if and a call with 2 args
    let func_src = r#"()
main() {
    var x = 1;
    if (x > 0) {
        return x;
    }
    foo(1, 2);
}
"#;
    let mut func = Outline::new(func_src);
    func.node(1, "expression_statement", "var x = 1;", None);
    func.node(1, "if_statement", "if (x > 0) {\n        return x;\n    }", None);
    func.node(2, "parenthesized_expression", "(x > 0)", Some("condition"));
    func.node(2, "return_statement", "return x;", None);
    func.node(1, "expression_statement", "foo(1, 2);", None);
    func.node(2, "function_application", "foo(1, 2)", None);
    func.node(3, "identifier", "foo", None);
    func.node(3, "tensor_expression", "(1, 2)", Some("arguments"));
    func.node(4, "(", "(", None);
    func.node(4, "number_literal", "1", None);
    func.node(4, ",", ",", None);
    func.node(4, "number_literal", "2", None);
    func.node(4, ")", ")", None);

    // Tact sample with if and a call with 2 args
    let tact_src = r#"contract C {
    fun f() {
        let x: Int = 1;
        if (x > 0) {
            return;
        }
        doSomething(1, 2);
    }
}
"#;
    let mut tact = Outline::new(tact_src);
    tact.node(1, "let_statement", "let x: Int = 1;", None);
    tact.node(1, "if_statement", "if (x > 0) {\n            return;\n        }", None);
    tact.node(2, "binary_expression", "x > 0", Some("condition"));
    tact.node(2, "return_statement", "return;", None);
    tact.node(1, "expression_statement", "doSomething(1, 2);", None);
    tact.node(2, "static_call_expression", "doSomething(1, 2)", None);
    tact.node(3, "argument_list", "(1, 2)", Some("arguments"));
    tact.node(4, "(", "(", None);
    tact.node(4, "argument", "1", None);
    tact.node(4, ",", ",", None);
    tact.node(4, "argument", "2", None);
    tact.node(4, ")", ")", None);

    let (_, func_mutants) = func_mutants(&func);
    let tact_target = tact.target(Language::Tact);
    let tact_mutants =
        get_mutations_for_language(&Language::Tact).apply_all_mutations(&tact_target, &tact.tree);

    let func_er = count(&func_mutants, "ER");
    let func_cr = count(&func_mutants, "CR");
    let func_as = count(&func_mutants, "AS");

    let tact_er = count(&tact_mutants, "ER");
    let tact_cr = count(&tact_mutants, "CR");
    let tact_as = count(&tact_mutants, "AS");

    println!("func ER/CR/AS: {func_er}/{func_cr}/{func_as}");
    println!("tact ER/CR/AS: {tact_er}/{tact_cr}/{tact_as}");

    assert!(func_er > 0 && tact_er > 0, "ER should be present in both languages");
    assert!(func_cr > 0 && tact_cr > 0, "CR should be present in both languages");
    // Only assert AS exists where implemented; require presence in at least one language.
    assert!(func_as > 0 || tact_as > 0, "AS should be present in at least one language");
    assert_eq!((func_er, func_cr, func_as), (3, 3, 1));
    assert_eq!((tact_er, tact_cr, tact_as), (3, 3, 1));
}

#[test]
fn cross_language_mutations_ignore_comments() {
    // FunC sample with commented-out code and real code
    let func_src = r#"()
main() {
    ;; if (true) { throw(1); }
    {- let y = 10; -}
    var x = 1;
    if (x > 0) { return x; }
}
"#;
    // NOTE: Keep this list in sync with func_src above.
    // Lines are 0-based and refer to fully-commented lines only.
    let func_commented_lines: &[usize] = &[2, 3];
    // The nodes below the comments are what a parser that looked into
    // comments would give; the engines pass over them all the same.
    let mut func = Outline::new(func_src);
    func.node(1, "comment", ";; if (true) { throw(1); }", None);
    func.node(2, "if_statement", "if (true) { throw(1); }", None);
    func.node(3, "if", "if", None);
    func.node(3, "parenthesized_expression", "(true)", Some("condition"));
    func.node(4, "boolean", "true", None);
    func.node(3, "block_statement", "{ throw(1); }", Some("consequent"));
    func.node(4, "expression_statement", "throw(1);", None);
    func.node(1, "comment", "{- let y = 10; -}", None);
    func.node(2, "expression_statement", "let y = 10;", None);
    func.node(1, "expression_statement", "var x = 1;", None);
    func.node(1, "if_statement", "if (x > 0) { return x; }", None);
    func.node(2, "if", "if", None);
    func.node(2, "parenthesized_expression", "(x > 0)", Some("condition"));
    func.node(3, "expression", "x > 0", None);
    func.node(4, "identifier", "x", None);
    func.node(4, ">", ">", None);
    func.node(4, "number_literal", "0", None);
    func.node(2, "block_statement", "{ return x; }", Some("consequent"));
    func.node(3, "return_statement", "return x;", None);
    let func_target = func.target(Language::FunC);

    // Tact sample with commented-out code and real code
    let tact_src = r#"// if (true) { require(false); }
// let x: Int = 1 + 2;
// if (1 < 2) { let y: Int = 3; }
// this.callMe(10, 20);
// while (true) { break; }
contract C {
    init() { }
    receive("hello") { }
    fun f(a: Int, b: Int): Int {
        return a + b;
    }
}
"#;
    // NOTE: Keep this list in sync with tact_src above.
    // Lines are 0-based and refer to fully-commented lines only.
    let tact_commented_lines: &[usize] = &[0, 1, 2, 3, 4];
    let mut tact = Outline::new(tact_src);
    tact.node(1, "comment", "// if (true) { require(false); }", None);
    tact.node(2, "if_statement", "if (true) { require(false); }", None);
    tact.node(3, "if", "if", None);
    tact.node(3, "parenthesized_expression", "(true)", Some("condition"));
    tact.node(4, "boolean", "true", None);
    tact.node(3, "block_statement", "{ require(false); }", Some("consequence"));
    tact.node(4, "expression_statement", "require(false);", None);
    tact.node(5, "boolean", "false", None);
    tact.node(1, "comment", "// let x: Int = 1 + 2;", None);
    tact.node(2, "let_statement", "let x: Int = 1 + 2;", None);
    tact.node(3, "binary_expression", "1 + 2", Some("value"));
    tact.node(4, "integer", "1", None);
    tact.node(4, "+", "+", None);
    tact.node(4, "integer", "2", None);
    tact.node(1, "comment", "// if (1 < 2) { let y: Int = 3; }", None);
    tact.node(2, "if_statement", "if (1 < 2) { let y: Int = 3; }", None);
    tact.node(3, "if", "if", None);
    tact.node(3, "parenthesized_expression", "(1 < 2)", Some("condition"));
    tact.node(4, "binary_expression", "1 < 2", None);
    tact.node(5, "integer", "1", None);
    tact.node(5, "<", "<", None);
    tact.node(5, "integer", "2", None);
    tact.node(3, "block_statement", "{ let y: Int = 3; }", Some("consequence"));
    tact.node(4, "let_statement", "let y: Int = 3;", None);
    tact.node(1, "comment", "// this.callMe(10, 20);", None);
    tact.node(2, "expression_statement", "this.callMe(10, 20);", None);
    tact.node(3, "method_call_expression", "this.callMe(10, 20)", None);
    tact.node(4, "self", "this", Some("object"));
    tact.node(4, "identifier", "callMe", Some("name"));
    tact.node(4, "argument_list", "(10, 20)", Some("arguments"));
    tact.node(5, "(", "(", None);
    tact.node(5, "argument", "10", None);
    tact.node(5, ",", ",", None);
    tact.node(5, "argument", "20", None);
    tact.node(5, ")", ")", None);
    tact.node(1, "comment", "// while (true) { break; }", None);
    tact.node(2, "while_statement", "while (true) { break; }", None);
    tact.node(3, "while", "while", None);
    tact.node(3, "parenthesized_expression", "(true)", Some("condition"));
    tact.node(4, "boolean", "true", None);
    tact.node(3, "block_statement", "{ break; }", Some("body"));
    tact.node(4, "break_statement", "break;", None);
    let contract = &tact_src[tact_src.find("contract C").unwrap()..];
    tact.node(1, "contract", contract.trim_end(), None);
    tact.node(2, "contract_body", &contract[contract.find('{').unwrap()..].trim_end(), None);
    tact.node(3, "init_function", "init() { }", None);
    tact.node(4, "function_body", "{ }", Some("body"));
    tact.node(3, "receive_function", "receive(\"hello\") { }", None);
    tact.node(4, "string", "\"hello\"", Some("parameter"));
    tact.node(4, "function_body", "{ }", Some("body"));
    let function = "fun f(a: Int, b: Int): Int {\n        return a + b;\n    }";
    tact.node(3, "storage_function", function, None);
    tact.node(4, "function_body", &function[function.find('{').unwrap()..], Some("body"));
    tact.node(5, "return_statement", "return a + b;", None);
    tact.node(6, "binary_expression", "a + b", None);
    tact.node(7, "identifier", "a", None);
    tact.node(7, "+", "+", None);
    tact.node(7, "identifier", "b", None);
    let tact_target = tact.target(Language::Tact);

    let func_engine = get_mutations_for_language(&Language::FunC);
    let tact_engine = get_mutations_for_language(&Language::Tact);

    let func_mutants = func_engine.apply_all_mutations(&func_target, &func.tree);
    let tact_mutants = tact_engine.apply_all_mutations(&tact_target, &tact.tree);
    assert!(!func_mutants.is_empty());
    assert!(!tact_mutants.is_empty());

    // FunC: ensure no mutants are on fully-commented lines
    for m in &func_mutants {
        let line = m.line_offset as usize;
        assert!(
            !func_commented_lines.contains(&line),
            "FunC mutated on commented line: slug={} line={}",
            m.mutation_slug,
            line
        );
    }

    // Tact: ensure no mutants are on fully-commented lines
    for m in &tact_mutants {
        let line = m.line_offset as usize;
        assert!(
            !tact_commented_lines.contains(&line),
            "Tact mutated on commented line: slug={} line={}",
            m.mutation_slug,
            line
        );
    }
}

#[test]
fn error_replacement_on_a_simple_function() {
    let source = "() test() { var x = 42; }";
    let mut outline = Outline::new(source);
    outline.node(1, "function_definition", source, None);
    outline.node(2, "block_statement", "{ var x = 42; }", None);
    outline.node(3, "expression_statement", "var x = 42;", None);
    let (target, mutants) = func_mutants(&outline);
    let er: Vec<&Mutant> = mutants.iter().filter(|m| m.mutation_slug == "ER").collect();
    assert_eq!(er.len(), 1);
    assert_eq!(er[0].old_text, "var x = 42;");
    assert_eq!(er[0].new_text, "throw(1);");
    assert_eq!(er[0].byte_offset, 12);
    assert_eq!(er[0].line_offset, 0);
    assert_eq!(er[0].target_id, 1);
    assert_eq!(er[0].id, 0);
    assert_eq!(target.mutate(er[0]).unwrap(), "() test() { throw(1); }");
}

#[test]
fn comment_replacement_wraps_in_a_block_comment() {
    let source = "contract C { fun f() { let x: Int = 1; } }";
    let mut outline = Outline::new(source);
    outline.node(1, "let_statement", "let x: Int = 1;", None);
    let target = outline.target(Language::Tact);
    let engine = TactLanguageEngine::new();
    let mutants = engine.apply_all_mutations(&target, &outline.tree);
    let cr: Vec<&Mutant> = mutants.iter().filter(|m| m.mutation_slug == "CR").collect();
    assert_eq!(cr.len(), 1);
    assert_eq!(cr[0].new_text, "/* let x: Int = 1; */");
    assert!(target.mutate(cr[0]).unwrap().contains("{ /* let x: Int = 1; */ }"));
}

#[test]
fn if_false_and_if_true_keep_the_parentheses() {
    let source = "() f() { if (x > 0) { return x; } }";
    let mut outline = Outline::new(source);
    outline.node(1, "if_statement", "if (x > 0) { return x; }", None);
    outline.node(2, "if", "if", None);
    outline.node(2, "parenthesized_expression", "(x > 0)", Some("condition"));
    outline.node(2, "block_statement", "{ return x; }", None);
    let target = outline.target(Language::FunC);
    let engine = FuncLanguageEngine::new();
    let mutants = engine.apply_all_mutations(&target, &outline.tree);
    let conditions: Vec<(&str, String)> = mutants
        .iter()
        .filter(|m| m.mutation_slug == "IF" || m.mutation_slug == "IT")
        .map(|m| (m.mutation_slug.as_str(), target.mutate(m).unwrap()))
        .collect();
    assert_eq!(
        conditions,
        vec![
            ("IF", "() f() { if (false) { return x; } }".to_string()),
            ("IT", "() f() { if (true) { return x; } }".to_string()),
        ]
    );
}

#[test]
fn adjacent_arguments_are_swapped() {
    let source = "() f() { foo(a, b); }";
    let mut outline = Outline::new(source);
    outline.node(1, "function_application", "foo(a, b)", None);
    outline.node(2, "identifier", "foo", None);
    outline.node(2, "tensor_expression", "(a, b)", Some("arguments"));
    outline.node(3, "(", "(", None);
    outline.node(3, "identifier", "a", None);
    outline.node(3, ",", ",", None);
    outline.node(3, "identifier", "b", None);
    outline.node(3, ")", ")", None);
    let (target, mutants) = func_mutants(&outline);
    let swapped: Vec<String> = mutants
        .iter()
        .filter(|m| m.mutation_slug == "AS")
        .map(|m| target.mutate(m).unwrap())
        .collect();
    assert_eq!(swapped, vec!["() f() { foo(b, a); }"]);

    let source = "() f() { foo(a, b, c); }";
    let mut outline = Outline::new(source);
    outline.node(1, "function_application", "foo(a, b, c)", None);
    outline.node(2, "identifier", "foo", None);
    outline.node(2, "tensor_expression", "(a, b, c)", Some("arguments"));
    outline.node(3, "(", "(", None);
    outline.node(3, "identifier", "a", None);
    outline.node(3, ",", ",", None);
    outline.node(3, "identifier", "b", None);
    outline.node(3, ",", ",", None);
    outline.node(3, "identifier", "c", None);
    outline.node(3, ")", ")", None);
    let (target, mutants) = func_mutants(&outline);
    let swapped: Vec<String> = mutants
        .iter()
        .filter(|m| m.mutation_slug == "AS")
        .map(|m| target.mutate(m).unwrap())
        .collect();
    assert_eq!(swapped, vec!["() f() { foo(b, a, c); }", "() f() { foo(a, c, b); }"]);
}

#[test]
fn commented_code_gives_no_mutants() {
    let source = "contract C {\n// if (true) { require(false); }\nfun f() { return; }\n}";
    let mut outline = Outline::new(source);
    outline.node(1, "comment", "// if (true) { require(false); }", None);
    outline.node(2, "if_statement", "if (true) { require(false); }", None);
    outline.node(3, "boolean", "true", Some("condition"));
    outline.node(3, "expression_statement", "require(false);", None);
    outline.node(4, "boolean", "false", None);
    outline.node(1, "return_statement", "return;", None);
    let target = outline.target(Language::Tact);
    for mutants in [
        TactLanguageEngine::new().apply_all_mutations(&target, &outline.tree),
        get_mutations_for_language(&Language::Tact).apply_all_mutations(&target, &outline.tree),
    ] {
        assert!(!mutants.is_empty());
        assert!(mutants.iter().all(|m| m.line_offset != 1), "a mutant is on the comment's line");
    }
}

#[test]
fn every_mutant_is_byte_exact_and_generation_repeats() {
    let source = "() f() {\n  var x = 1 + 2;\n  if (x > 0) { foo(x, 1); }\n}\n";
    let mut outline = Outline::new(source);
    outline.node(1, "expression_statement", "var x = 1 + 2;", None);
    outline.node(2, "expression", "1 + 2", None);
    outline.node(3, "number_literal", "1", None);
    outline.node(3, "+", "+", None);
    outline.node(3, "number_literal", "2", None);
    outline.node(1, "if_statement", "if (x > 0) { foo(x, 1); }", None);
    outline.node(2, "parenthesized_expression", "(x > 0)", Some("condition"));
    outline.node(3, "expression", "x > 0", None);
    outline.node(4, ">", ">", None);
    outline.node(2, "function_application", "foo(x, 1)", None);
    outline.node(3, "identifier", "foo", None);
    outline.node(3, "tensor_expression", "(x, 1)", Some("arguments"));
    outline.node(4, "identifier", "x", None);
    outline.node(4, "number_literal", "1", None);
    let target = outline.target(Language::FunC);
    let config = default_global_config();
    let first = target.generate_mutants(&outline.tree, &config).unwrap();
    let second = target.generate_mutants(&outline.tree, &config).unwrap();
    assert!(first.len() >= 10);
    assert_eq!(first.len(), second.len());
    for (a, b) in first.iter().zip(second.iter()) {
        assert_eq!(
            (a.byte_offset, &a.old_text, &a.new_text, &a.mutation_slug),
            (b.byte_offset, &b.old_text, &b.new_text, &b.mutation_slug)
        );
        let start = a.byte_offset as usize;
        assert_eq!(&target.text[start..start + a.old_text.len()], a.old_text);
        let newlines = target.text[..start].matches('\n').count() as u32;
        assert_eq!(a.line_offset, newlines);
        // Applying the edit changes the text just when it changes something.
        let mutated = target.mutate(a).unwrap();
        assert_eq!(mutated != target.text, a.old_text != a.new_text);
    }
    // The operator `+` has three alternatives, `>` five.
    assert_eq!(count(&first, "AOS"), 3);
    assert_eq!(count(&first, "COS"), 5);
}

#[test]
fn comments_among_the_children_are_passed_over() {
    // A comment among the arguments is no argument.
    let source = "() f() { foo({- c -} a, b); }";
    let mut outline = Outline::new(source);
    outline.node(1, "function_application", "foo({- c -} a, b)", None);
    outline.node(2, "identifier", "foo", None);
    outline.node(2, "tensor_expression", "({- c -} a, b)", Some("arguments"));
    outline.node(3, "(", "(", None);
    outline.node(3, "comment", "{- c -}", None);
    outline.node(3, "identifier", "a", None);
    outline.node(3, ",", ",", None);
    outline.node(3, "identifier", "b", None);
    outline.node(3, ")", ")", None);
    let (target, mutants) = func_mutants(&outline);
    let swapped: Vec<String> = mutants
        .iter()
        .filter(|m| m.mutation_slug == "AS")
        .map(|m| target.mutate(m).unwrap())
        .collect();
    assert_eq!(swapped, vec!["() f() { foo({- c -} b, a); }"]);

    // The first argument of a call is the first that is no comment.
    let source = "() f() { b.store_uint({- n -} 5, 32); }";
    let mut outline = Outline::new(source);
    outline.node(1, "method_call", ".store_uint({- n -} 5, 32)", None);
    outline.node(2, "identifier", ".store_uint", None);
    outline.node(2, "argument_list", "({- n -} 5, 32)", Some("arguments"));
    outline.node(3, "(", "(", None);
    outline.node(3, "comment", "{- n -}", None);
    outline.node(3, "number_literal", "5", None);
    outline.node(3, ",", ",", None);
    outline.node(3, "number_literal", "32", None);
    outline.node(3, ")", ")", None);
    let (target, mutants) = func_mutants(&outline);
    let zeroed = apply_first_mutant_with_slug(&target, &mutants, "SU").expect("SU mutant");
    assert_eq!(zeroed, "() f() { b.store_uint({- n -} 0, 32); }");
    assert_eq!(count(&mutants, "SU"), 1);

    // A comment before the condition is not the condition, and a comment
    // among the operands is no operator.
    let source = "() f() { while {- + -} (a + b) { } }";
    let mut outline = Outline::new(source);
    outline.node(1, "while_statement", "while {- + -} (a + b) { }", None);
    outline.node(2, "while", "while", None);
    outline.node(2, "comment", "{- + -}", None);
    outline.node(2, "parenthesized_expression", "(a + b)", None);
    outline.node(3, "expression", "a + b", None);
    outline.node(4, "identifier", "a", None);
    outline.node(4, "+", "+", None);
    outline.node(4, "identifier", "b", None);
    outline.node(2, "block_statement", "{ }", None);
    let (target, mutants) = func_mutants(&outline);
    let forced = apply_first_mutant_with_slug(&target, &mutants, "WF").expect("WF mutant");
    assert_eq!(forced, "() f() { while {- + -} (false) { } }");
    assert_eq!(count(&mutants, "WF"), 1);
    for m in &mutants {
        assert!(!m.old_text.contains("{-") || m.mutation_slug == "ER" || m.mutation_slug == "CR");
        let start = m.byte_offset as usize;
        assert!(!(15..22).contains(&start), "{} starts in the comment", m.mutation_slug);
    }

    // A comment that fills a field is not replaced, and an operator that
    // stands in a comment is not shuffled.
    let source = "() f() { x = a {- - -} + b; }";
    let mut outline = Outline::new(source);
    outline.node(1, "expression", "a {- - -} + b", None);
    outline.node(2, "identifier", "a", None);
    outline.node(2, "comment", "{- - -}", None);
    outline.node(3, "-", "-", None);
    outline.node(2, "+", "+", None);
    outline.node(2, "identifier", "b", None);
    let (target, mutants) = func_mutants(&outline);
    let shuffled: Vec<String> = mutants
        .iter()
        .filter(|m| m.mutation_slug == "AOS")
        .map(|m| target.mutate(m).unwrap())
        .collect();
    assert_eq!(
        shuffled,
        vec![
            "() f() { x = a {- - -} - b; }",
            "() f() { x = a {- - -} * b; }",
            "() f() { x = a {- - -} / b; }",
        ]
    );
}
