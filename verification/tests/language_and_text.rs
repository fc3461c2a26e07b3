//! Language detection, kind tables, display labels and text helpers.

use codedef::lang::Lang;
use codedef::lang::detect_lang;
use codedef::lang::format_def_type;
use codedef::lang::is_compound_type;
use codedef::lang::is_definition_type;
use codedef::text::compact_whitespace;
use codedef::text::str_eq;

#[test]
fn test_lang_detection() {
    assert!(matches!(Lang::from_extension("c"), Some(Lang::C)));
    assert!(matches!(Lang::from_extension("h"), Some(Lang::C)));
    assert!(matches!(Lang::from_extension("C"), Some(Lang::C)));
    assert!(Lang::from_extension("py").is_none());
    assert!(Lang::from_extension("rs").is_none());
}

#[test]
fn test_format_def_type() {
    assert_eq!(format_def_type("function_definition"), "fn");
    assert_eq!(format_def_type("struct_specifier"), "struct");
    assert_eq!(format_def_type("type_definition"), "typedef");
    assert_eq!(format_def_type("preproc_def"), "macro");
}

#[test]
fn test_format_def_type_passthrough() {
    assert_eq!(format_def_type("union_specifier"), "union");
    assert_eq!(format_def_type("enum_specifier"), "enum");
    assert_eq!(format_def_type("preproc_function_def"), "macro");
    assert_eq!(format_def_type("comment"), "comment");
}

#[test]
fn test_detect_lang_prefers_explicit_choice() {
    assert!(matches!(detect_lang("py", Some(Lang::C)), Lang::C));
    assert!(matches!(detect_lang("h", None), Lang::C));
    assert!(matches!(detect_lang("txt", None), Lang::C));
}

#[test]
fn test_kind_tables() {
    let defs = Lang::C.definition_types();
    assert_eq!(
        defs,
        vec!["function_definition", "type_definition", "preproc_def", "preproc_function_def"]
    );
    let compounds = Lang::C.compound_types();
    assert_eq!(compounds, vec!["struct_specifier", "union_specifier", "enum_specifier"]);
    let bodies = Lang::C.body_types();
    assert_eq!(bodies, vec!["field_declaration_list", "enumerator_list"]);
}

#[test]
fn test_kind_predicates() {
    assert!(is_definition_type("function_definition", Lang::C));
    assert!(is_definition_type("preproc_function_def", Lang::C));
    assert!(!is_definition_type("struct_specifier", Lang::C));
    assert!(is_compound_type("union_specifier", Lang::C));
    assert!(!is_compound_type("comment", Lang::C));
}

#[test]
fn test_compact_whitespace_exact() {
    assert_eq!(compact_whitespace("  int \n  x  "), "int x");
    assert_eq!(compact_whitespace("a\t\tb"), "a b");
    assert_eq!(compact_whitespace(""), "");
    assert_eq!(compact_whitespace("   \n\t "), "");
    assert_eq!(compact_whitespace("one"), "one");
}

#[test]
fn test_str_eq_on_distinct_strings() {
    assert!(str_eq("alpha", "alpha"));
    assert!(!str_eq("alpha", "alphA"));
    assert!(!str_eq("alpha", "alpha "));
    assert!(str_eq("", ""));
}
