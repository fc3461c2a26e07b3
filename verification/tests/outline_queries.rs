//! Outline queries against trees produced by the real C parser.

use codedef::lang::Lang;
use codedef::node::SyntaxNode;
use codedef::query::list_outline;

fn convert(node: tree_sitter::Node, source: &str, field: Option<String>) -> SyntaxNode {
    let mut children: Vec<SyntaxNode> = Vec::new();
    let n: u32 = node.child_count();
    for i in 0..n {
        let child = node.child(i).unwrap();
        let fname = node.field_name_for_child(i).map(|s| s.to_string());
        children.push(convert(child, source, fname));
    }
    SyntaxNode {
        kind: node.kind().to_string(),
        text: node.utf8_text(source.as_bytes()).unwrap_or("").to_string(),
        start_line: node.start_position().row + 1,
        end_line: node.end_position().row + 1,
        end_col: node.end_position().column,
        start_byte: node.start_byte(),
        end_byte: node.end_byte(),
        field_name: field,
        children,
    }
}

fn parse_c(source: &str) -> SyntaxNode {
    let mut parser = tree_sitter::Parser::new();
    parser
        .set_language(&tree_sitter_c::LANGUAGE.into())
        .unwrap();
    let tree = parser.parse(source, None).unwrap();
    convert(tree.root_node(), source, None)
}

#[test]
fn test_outline_functions() {
    let content = "\nint add(int a, int b) {\n    return a + b;\n}\n\nint subtract(int a, int b) {\n    return a - b;\n}\n";
    let root = parse_c(content);
    let entries = list_outline(&root, Lang::C);
    assert_eq!(entries.len(), 2);
    assert_eq!(entries[0].line, 2);
    assert_eq!(entries[1].line, 6);
    assert!(entries[0].signature.contains("add"));
    assert!(entries[1].signature.contains("subtract"));
}

#[test]
fn test_outline_mixed_definitions() {
    let content = "\n#define MAX_SIZE 100\n\nstruct Point {\n    int x;\n    int y;\n};\n\ntypedef struct {\n    int width;\n    int height;\n} Rectangle;\n\nint calculate_area(Rectangle* r) {\n    return r->width * r->height;\n}\n";
    let root = parse_c(content);
    let entries = list_outline(&root, Lang::C);
    assert_eq!(entries.len(), 4); // macro, struct, typedef, function

    let typedef_entry = entries
        .iter()
        .find(|entry| entry.def_type == "type_definition")
        .expect("typedef entry");
    assert!(typedef_entry.signature.starts_with("typedef"));
    assert!(typedef_entry.signature.contains("Rectangle"));
}

#[test]
fn test_outline_entries_in_line_order() {
    let content = "#define MAX_SIZE 100\nstruct P {\n    int x;\n};\ntypedef struct {\n    int w;\n} Q;\nint f(void) {\n    return MAX_SIZE;\n}\n";
    let root = parse_c(content);
    let entries = list_outline(&root, Lang::C);
    assert_eq!(entries.len(), 4);
    assert_eq!(entries[0].def_type, "preproc_def");
    assert_eq!(entries[1].def_type, "struct_specifier");
    assert_eq!(entries[2].def_type, "type_definition");
    assert_eq!(entries[3].def_type, "function_definition");
    for i in 1..entries.len() {
        assert!(entries[i - 1].line <= entries[i].line);
        assert!(entries[i].line <= entries[i].end_line);
    }
    assert!(entries[2].signature.starts_with("typedef"));
    assert!(entries[2].signature.contains("Q"));
}

#[test]
fn test_outline_signatures_exact() {
    let content = "#define MAX_SIZE 100\nstruct Point {\n    int x;\n};\ntypedef struct {\n    int w;\n} Rect;\nint  area (struct Point p) {\n    return p.x;\n}\n";
    let root = parse_c(content);
    let entries = list_outline(&root, Lang::C);
    assert_eq!(entries.len(), 4);
    assert_eq!(entries[0].signature, "#define MAX_SIZE 100");
    assert_eq!(entries[1].signature, "struct Point");
    assert_eq!(entries[2].signature, "typedef struct {...} Rect");
    assert_eq!(entries[3].signature, "int area (struct Point p)");
}

#[test]
fn test_outline_empty_for_comment_only_file() {
    let content = "// just a comment\n";
    let root = parse_c(content);
    let entries = list_outline(&root, Lang::C);
    assert!(entries.is_empty());
}

#[test]
fn test_outline_skips_forward_declaration() {
    let content = "struct Foo;\nint f(void) {\n    return 0;\n}\n";
    let root = parse_c(content);
    let entries = list_outline(&root, Lang::C);
    assert_eq!(entries.len(), 1);
    assert_eq!(entries[0].def_type, "function_definition");
}

#[test]
fn test_outline_typedef_payload_not_listed() {
    let content = "typedef struct {\n    int x;\n} Point;\n";
    let root = parse_c(content);
    let entries = list_outline(&root, Lang::C);
    assert_eq!(entries.len(), 1);
    assert_eq!(entries[0].def_type, "type_definition");
}

#[test]
fn test_outline_twice_yields_identical_sequence() {
    let content = "#define N 3\nint f(void) {\n    return N;\n}\n";
    let root = parse_c(content);
    let first = list_outline(&root, Lang::C);
    let second = list_outline(&root, Lang::C);
    assert_eq!(first.len(), second.len());
    for i in 0..first.len() {
        assert_eq!(first[i].line, second[i].line);
        assert_eq!(first[i].end_line, second[i].end_line);
        assert_eq!(first[i].signature, second[i].signature);
        assert_eq!(first[i].def_type, second[i].def_type);
    }
}

#[test]
fn test_outline_stable_on_equal_lines() {
    let content = "int f(void) { return 0; } int g(void) { return 1; }\n";
    let root = parse_c(content);
    let entries = list_outline(&root, Lang::C);
    assert_eq!(entries.len(), 2);
    assert_eq!(entries[0].line, 1);
    assert_eq!(entries[1].line, 1);
    assert!(entries[0].signature.contains("f"));
    assert!(entries[1].signature.contains("g"));
}

#[test]
fn test_outline_includes_nested_definitions() {
    let content = "int outer(void) {\n    struct Local {\n        int v;\n    };\n    return 0;\n}\n";
    let root = parse_c(content);
    let entries = list_outline(&root, Lang::C);
    assert_eq!(entries.len(), 2);
    assert_eq!(entries[0].def_type, "function_definition");
    assert_eq!(entries[1].def_type, "struct_specifier");
    assert_eq!(entries[1].line, 2);
}
