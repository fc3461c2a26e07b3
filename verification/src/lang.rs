//! Language profiles: which syntax-node kinds count as definitions, which
//! compound kinds need a body, and which child kinds supply that body.

use vstd::prelude::*;
use crate::text::str_eq;

verus! {

/// Supported programming languages
#[derive(Debug, Clone, Copy)]
pub enum Lang {
    /// C language
    C,
}

/// Node kinds that are definitions by themselves.
pub open spec fn spec_is_definition_kind(lang: Lang, kind: Seq<char>) -> bool {
    match lang {
        Lang::C => kind == "function_definition"@ || kind == "type_definition"@ || kind
            == "preproc_def"@ || kind == "preproc_function_def"@,
    }
}

/// The type-alias kind: the one definition kind whose compound payload is
/// suppressed from standalone reporting.
pub open spec fn spec_is_type_alias_kind(lang: Lang, kind: Seq<char>) -> bool {
    match lang {
        Lang::C => kind == "type_definition"@,
    }
}

/// Node kinds that are definitions only when they carry a body.
pub open spec fn spec_is_compound_kind(lang: Lang, kind: Seq<char>) -> bool {
    match lang {
        Lang::C => kind == "struct_specifier"@ || kind == "union_specifier"@ || kind
            == "enum_specifier"@,
    }
}

/// Child kinds that count as body evidence for a compound kind.
pub open spec fn spec_is_body_kind(lang: Lang, kind: Seq<char>) -> bool {
    match lang {
        Lang::C => kind == "field_declaration_list"@ || kind == "enumerator_list"@,
    }
}

impl Lang {
    /// Get definition types for this language
    pub fn definition_types(self) -> (r: Vec<&'static str>)
        ensures
            r@.len() == 4,
            r@[0]@ == "function_definition"@,
            r@[1]@ == "type_definition"@,
            r@[2]@ == "preproc_def"@,
            r@[3]@ == "preproc_function_def"@,
    {
        match self {
            Lang::C => vec!["function_definition", "type_definition", "preproc_def", "preproc_function_def"],
        }
    }

    /// Get compound types that need body check
    pub fn compound_types(self) -> (r: Vec<&'static str>)
        ensures
            r@.len() == 3,
            r@[0]@ == "struct_specifier"@,
            r@[1]@ == "union_specifier"@,
            r@[2]@ == "enum_specifier"@,
    {
        match self {
            Lang::C => vec!["struct_specifier", "union_specifier", "enum_specifier"],
        }
    }

    /// Get body node types for compound types
    pub fn body_types(self) -> (r: Vec<&'static str>)
        ensures
            r@.len() == 2,
            r@[0]@ == "field_declaration_list"@,
            r@[1]@ == "enumerator_list"@,
    {
        match self {
            Lang::C => vec!["field_declaration_list", "enumerator_list"],
        }
    }

    /// Detect language from file extension, ASCII-case-insensitively.
    pub fn from_extension(ext: &str) -> (r: Option<Lang>)
        ensures
            r == spec_lang_of_extension(ext@),
    {
        if str_eq(ext, "c") || str_eq(ext, "C") || str_eq(ext, "h") || str_eq(ext, "H") {
            Some(Lang::C)
        } else {
            None
        }
    }
}

impl core::default::Default for Lang {
    /// The language assumed when none is given and none can be detected.
    fn default() -> (r: Lang)
        ensures
            r == Lang::C,
    {
        Lang::C
    }
}

/// The language that a file extension names, if any.
pub open spec fn spec_lang_of_extension(ext: Seq<char>) -> Option<Lang> {
    if ext == "c"@ || ext == "C"@ || ext == "h"@ || ext == "H"@ {
        Some(Lang::C)
    } else {
        None
    }
}

/// The language chosen for a query: an explicit choice wins, then the file
/// extension, then the default.
pub open spec fn spec_detect_lang(ext: Seq<char>, explicit_lang: Option<Lang>) -> Lang {
    match explicit_lang {
        Some(l) => l,
        None => match spec_lang_of_extension(ext) {
            Some(l) => l,
            None => Lang::C,
        },
    }
}

/// Detect language from an explicit choice or a file extension.
pub fn detect_lang(extension: &str, explicit_lang: Option<Lang>) -> (r: Lang)
    ensures
        r == spec_detect_lang(extension@, explicit_lang),
{
    match explicit_lang {
        Some(l) => l,
        None => match Lang::from_extension(extension) {
            Some(l) => l,
            None => Lang::C,
        },
    }
}

/// Check if a node is a definition type
pub fn is_definition_type(node_type: &str, lang: Lang) -> (r: bool)
    ensures
        r == spec_is_definition_kind(lang, node_type@),
{
    match lang {
        Lang::C => str_eq(node_type, "function_definition") || str_eq(node_type, "type_definition")
            || str_eq(node_type, "preproc_def") || str_eq(node_type, "preproc_function_def"),
    }
}

/// Check if a node is a compound type
pub fn is_compound_type(node_type: &str, lang: Lang) -> (r: bool)
    ensures
        r == spec_is_compound_kind(lang, node_type@),
{
    match lang {
        Lang::C => str_eq(node_type, "struct_specifier") || str_eq(node_type, "union_specifier")
            || str_eq(node_type, "enum_specifier"),
    }
}

/// Check if a node kind counts as body evidence for a compound type.
pub fn is_body_type(node_type: &str, lang: Lang) -> (r: bool)
    ensures
        r == spec_is_body_kind(lang, node_type@),
{
    match lang {
        Lang::C => str_eq(node_type, "field_declaration_list") || str_eq(
            node_type,
            "enumerator_list",
        ),
    }
}

/// Check if a node kind is the type-alias kind.
pub fn is_type_alias_type(node_type: &str, lang: Lang) -> (r: bool)
    ensures
        r == spec_is_type_alias_kind(lang, node_type@),
{
    match lang {
        Lang::C => str_eq(node_type, "type_definition"),
    }
}

/// The short display label for a definition kind.
pub open spec fn spec_format_def_type(kind: Seq<char>) -> Seq<char> {
    if kind == "function_definition"@ {
        "fn"@
    } else if kind == "type_definition"@ {
        "typedef"@
    } else if kind == "struct_specifier"@ {
        "struct"@
    } else if kind == "union_specifier"@ {
        "union"@
    } else if kind == "enum_specifier"@ {
        "enum"@
    } else if kind == "preproc_def"@ || kind == "preproc_function_def"@ {
        "macro"@
    } else {
        kind
    }
}

/// Format definition type for display
pub fn format_def_type<'a>(def_type: &'a str) -> (r: &'a str)
    ensures
        r@ == spec_format_def_type(def_type@),
{
    if str_eq(def_type, "function_definition") {
        "fn"
    } else if str_eq(def_type, "type_definition") {
        "typedef"
    } else if str_eq(def_type, "struct_specifier") {
        "struct"
    } else if str_eq(def_type, "union_specifier") {
        "union"
    } else if str_eq(def_type, "enum_specifier") {
        "enum"
    } else if str_eq(def_type, "preproc_def") || str_eq(def_type, "preproc_function_def") {
        "macro"
    } else {
        def_type
    }
}

} // verus!
