//! Point queries against trees produced by the real C parser.

use codedef::lang::Lang;
use codedef::node::SyntaxNode;
use codedef::query::find_innermost_definition;

fn convert(node: tree_sitter::Node, source: &str, field: Option<String>) -> SyntaxNode {
    let mut children: Vec<SyntaxNode> = Vec::new();
    let n: u32 = node.child_count();
    for i in 0..n {
        let child = node.child(i).unwrap();
        let fname = node.field_name_for_child(i).map(|s| s.to_string());
        children.push(convert(child, source, fname));
    }
    SyntaxNode {
        kind: node.kind().to_string(),
        text: node.utf8_text(source.as_bytes()).unwrap_or("").to_string(),
        start_line: node.start_position().row + 1,
        end_line: node.end_position().row + 1,
        end_col: node.end_position().column,
        start_byte: node.start_byte(),
        end_byte: node.end_byte(),
        field_name: field,
        children,
    }
}

fn parse_c(source: &str) -> SyntaxNode {
    let mut parser = tree_sitter::Parser::new();
    parser
        .set_language(&tree_sitter_c::LANGUAGE.into())
        .unwrap();
    let tree = parser.parse(source, None).unwrap();
    convert(tree.root_node(), source, None)
}

#[test]
fn test_find_function_definition() {
    let content = "\nint add(int a, int b) {\n    return a + b;\n}\n";
    let root = parse_c(content);
    let result = find_innermost_definition(&root, 3, Lang::C);
    assert!(result.is_some());
    let (code, start_line, def_type) = result.unwrap();
    assert_eq!(def_type, "function_definition");
    assert_eq!(start_line, 2);
    assert!(code.contains("int add"));
}

#[test]
fn test_find_struct_definition() {
    let content = "\nstruct Point {\n    int x;\n    int y;\n};\n";
    let root = parse_c(content);
    let result = find_innermost_definition(&root, 3, Lang::C);
    assert!(result.is_some());
    let (_, _, def_type) = result.unwrap();
    assert_eq!(def_type, "struct_specifier");
}

#[test]
fn test_find_typedef() {
    let content = "\ntypedef struct {\n    int x;\n    int y;\n} Point;\n";
    let root = parse_c(content);
    let result = find_innermost_definition(&root, 3, Lang::C);
    assert!(result.is_some());
    let (_, _, def_type) = result.unwrap();
    assert_eq!(def_type, "type_definition");
}

#[test]
fn test_no_definition_found() {
    let content = "\n// Just a comment\n";
    let root = parse_c(content);
    let result = find_innermost_definition(&root, 2, Lang::C);
    assert!(result.is_none());
}

#[test]
fn test_point_query_inside_function_body() {
    let content = "int add(int a, int b) {\n    return a + b;\n}\n";
    let root = parse_c(content);
    let result = find_innermost_definition(&root, 2, Lang::C);
    assert!(result.is_some());
    let (code, start_line, def_type) = result.unwrap();
    assert_eq!(def_type, "function_definition");
    assert_eq!(start_line, 1);
    assert!(code.contains("int add"));
}

#[test]
fn test_point_query_on_typedef_body_reports_alias() {
    let content = "typedef struct {\n    int x;\n    int y;\n} Point;\n";
    let root = parse_c(content);
    let result = find_innermost_definition(&root, 2, Lang::C);
    assert!(result.is_some());
    let (_, start_line, def_type) = result.unwrap();
    assert_eq!(def_type, "type_definition");
    assert_eq!(start_line, 1);
}

#[test]
fn test_comment_only_file_never_finds() {
    let content = "// nothing here but a comment\n";
    let root = parse_c(content);
    for line in 1..4usize {
        assert!(find_innermost_definition(&root, line, Lang::C).is_none());
    }
}

#[test]
fn test_forward_declaration_is_not_found() {
    let content = "struct Foo;\n";
    let root = parse_c(content);
    assert!(find_innermost_definition(&root, 1, Lang::C).is_none());
}

#[test]
fn test_innermost_definition_wins() {
    let content = "int outer(void) {\n    struct Local {\n        int v;\n    };\n    return 0;\n}\n";
    let root = parse_c(content);
    let result = find_innermost_definition(&root, 3, Lang::C);
    assert!(result.is_some());
    let (_, start_line, def_type) = result.unwrap();
    assert_eq!(def_type, "struct_specifier");
    assert_eq!(start_line, 2);
}

fn plain_node(
    kind: &str,
    text: &str,
    start_line: usize,
    end_line: usize,
    end_col: usize,
    start_byte: usize,
    end_byte: usize,
    children: Vec<SyntaxNode>,
) -> SyntaxNode {
    SyntaxNode {
        kind: kind.to_string(),
        text: text.to_string(),
        start_line,
        end_line,
        end_col,
        start_byte,
        end_byte,
        field_name: None,
        children,
    }
}

#[test]
fn test_line_only_inside_typedef_payload_is_not_found() {
    // When the target line lies inside a compound type's body but outside
    // the span of the type alias wrapping it, the walk prunes the alias
    // subtree and nothing survives: the query reports no definition.
    let body = plain_node("field_declaration_list", "{\n    int x;\n}", 1, 4, 1, 15, 30, Vec::new());
    let payload = plain_node("struct_specifier", "struct {\n    int x;\n}", 1, 4, 1, 8, 30, vec![body]);
    let alias = plain_node("type_definition", "typedef struct {", 1, 2, 0, 0, 16, vec![payload]);
    let root = plain_node("translation_unit", "typedef struct {\n    int x;\n} T;\n", 1, 5, 0, 0, 33, vec![alias]);
    assert!(find_innermost_definition(&root, 3, Lang::C).is_none());
}

#[test]
fn test_closing_delimiter_at_column_zero_boundary() {
    // A definition whose span ends at column 0 of line 3 occupies lines 1
    // and 2 only.
    let function = plain_node("function_definition", "int f() {\n}\n", 1, 3, 0, 0, 12, Vec::new());
    let root = plain_node("translation_unit", "int f() {\n}\n", 1, 3, 0, 0, 12, vec![function]);
    assert!(find_innermost_definition(&root, 3, Lang::C).is_none());
    let hit = find_innermost_definition(&root, 2, Lang::C);
    assert!(hit.is_some());
    let (_, start_line, def_type) = hit.unwrap();
    assert_eq!(def_type, "function_definition");
    assert_eq!(start_line, 1);
}
