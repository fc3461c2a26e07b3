//! Rendering of compact one-line signatures for classified definitions.

use vstd::prelude::*;
use vstd::string::StringExecFns;
use crate::lang::Lang;
use crate::lang::is_compound_type;
use crate::lang::spec_is_compound_kind;
use crate::node::SyntaxNode;
use crate::node::child_by_field_name;
use crate::node::spec_field_child;
use crate::node::spec_has_field_name;
use crate::text::compact_whitespace;
use crate::text::first_line;
use crate::text::spec_compact_ws;
use crate::text::spec_first_line;
use crate::text::str_eq;

verus! {

/// The keyword that introduces a compound kind.
pub open spec fn spec_compound_keyword(kind: Seq<char>) -> Seq<char> {
    if kind == "struct_specifier"@ {
        "struct"@
    } else if kind == "union_specifier"@ {
        "union"@
    } else if kind == "enum_specifier"@ {
        "enum"@
    } else {
        Seq::empty()
    }
}

/// The signature of a compound type: its keyword and its name, or a brace
/// placeholder when it is anonymous.
pub open spec fn spec_compound_sig(n: SyntaxNode) -> Seq<char> {
    let kw = spec_compound_keyword(n.kind@);
    match spec_field_child(n, "name"@) {
        Some(c) => kw + " "@ + spec_compact_ws(c.text@),
        None => kw + " {...}"@,
    }
}

/// The signature of a function-like definition: its return type and its
/// declarator, or the first source line when no declarator is named.
pub open spec fn spec_fn_sig(n: SyntaxNode) -> Seq<char> {
    match spec_field_child(n, "declarator"@) {
        Some(d) => match spec_field_child(n, "type"@) {
            Some(t) => spec_compact_ws(t.text@) + " "@ + spec_compact_ws(d.text@),
            None => spec_compact_ws(d.text@),
        },
        None => spec_first_line(n.text@),
    }
}

/// The comma-joined, compacted texts of the first `k` children that hang
/// under the `declarator` field and are non-empty once compacted, paired
/// with whether there were any.
pub open spec fn spec_decls_text(cs: Seq<SyntaxNode>, k: int) -> (Seq<char>, bool)
    decreases k,
{
    if k <= 0 {
        (Seq::empty(), false)
    } else {
        let pre = spec_decls_text(cs, k - 1);
        let t = spec_compact_ws(cs[k - 1].text@);
        if spec_has_field_name(cs[k - 1], "declarator"@) && t.len() > 0 {
            if pre.1 {
                (pre.0 + ", "@ + t, true)
            } else {
                (t, true)
            }
        } else {
            pre
        }
    }
}

/// The signature of a type alias: the rendered aliased type and the
/// comma-joined declarators, each half omitted when empty, falling back to
/// the first source line when both are.
pub open spec fn spec_typedef_sig(n: SyntaxNode) -> Seq<char> {
    let type_sig = match spec_field_child(n, "type"@) {
        Some(t) => if spec_is_compound_kind(Lang::C, t.kind@) {
            spec_compound_sig(t)
        } else {
            spec_compact_ws(t.text@)
        },
        None => Seq::empty(),
    };
    let decls = spec_decls_text(n.children@, n.children@.len() as int);
    if type_sig.len() > 0 && decls.1 {
        "typedef "@ + type_sig + " "@ + decls.0
    } else if type_sig.len() > 0 {
        "typedef "@ + type_sig
    } else if decls.1 {
        "typedef "@ + decls.0
    } else {
        spec_first_line(n.text@)
    }
}

/// The signature of a classified C definition, keyed on its kind.
pub open spec fn spec_c_sig(n: SyntaxNode) -> Seq<char> {
    if n.kind@ == "function_definition"@ {
        spec_fn_sig(n)
    } else if n.kind@ == "type_definition"@ {
        spec_typedef_sig(n)
    } else if spec_is_compound_kind(Lang::C, n.kind@) {
        spec_compound_sig(n)
    } else {
        spec_first_line(n.text@)
    }
}

/// The signature of a classified definition, per language.
pub open spec fn spec_sig_of(lang: Lang, n: SyntaxNode) -> Seq<char> {
    match lang {
        Lang::C => spec_c_sig(n),
    }
}

/// Render the signature of a compound type.
fn compound_signature(n: &SyntaxNode) -> (r: String)
    ensures
        r@ == spec_compound_sig(*n),
{
    let kind = n.kind.as_str();
    let keyword = if str_eq(kind, "struct_specifier") {
        "struct"
    } else if str_eq(kind, "union_specifier") {
        "union"
    } else if str_eq(kind, "enum_specifier") {
        "enum"
    } else {
        ""
    };
    proof {
        reveal_strlit("");
        assert(keyword@ == spec_compound_keyword(n.kind@));
    }
    let mut r = String::from_str(keyword);
    match child_by_field_name(n, "name") {
        Some(c) => {
            let name = compact_whitespace(c.text.as_str());
            r.append(" ");
            r.append(name.as_str());
        },
        None => {
            r.append(" {...}");
        },
    }
    r
}

/// Extract signature for C language definitions
fn extract_c_signature(node: &SyntaxNode) -> (r: String)
    ensures
        r@ == spec_c_sig(*node),
{
    let kind = node.kind.as_str();
    if str_eq(kind, "function_definition") {
        match child_by_field_name(node, "declarator") {
            Some(d) => {
                let sig = compact_whitespace(d.text.as_str());
                match child_by_field_name(node, "type") {
                    Some(t) => {
                        let mut r = compact_whitespace(t.text.as_str());
                        r.append(" ");
                        r.append(sig.as_str());
                        r
                    },
                    None => sig,
                }
            },
            None => first_line(node.text.as_str()),
        }
    } else if str_eq(kind, "type_definition") {
        extract_typedef_signature(node)
    } else if is_compound_type(kind, Lang::C) {
        compound_signature(node)
    } else {
        first_line(node.text.as_str())
    }
}

/// Extract a concise typedef signature
fn extract_typedef_signature(node: &SyntaxNode) -> (r: String)
    ensures
        r@ == spec_typedef_sig(*node),
{
    let type_sig: String = match child_by_field_name(node, "type") {
        Some(t) => {
            if is_compound_type(t.kind.as_str(), Lang::C) {
                compound_signature(t)
            } else {
                compact_whitespace(t.text.as_str())
            }
        },
        None => String::new(),
    };
    let mut decls = String::new();
    let mut any = false;
    let mut i: usize = 0;
    while i < node.children.len()
        invariant
            i <= node.children@.len(),
            decls@ == spec_decls_text(node.children@, i as int).0,
            any == spec_decls_text(node.children@, i as int).1,
        decreases node.children@.len() - i,
    {
        let c = &node.children[i];
        if crate::node::has_field_name(c, "declarator") {
            let t = compact_whitespace(c.text.as_str());
            if !t.as_str().is_empty() {
                if any {
                    decls.append(", ");
                } else {
                    decls = String::new();
                }
                decls.append(t.as_str());
                any = true;
            }
        }
        i = i + 1;
    }
    if !type_sig.as_str().is_empty() && any {
        let mut r = String::from_str("typedef ");
        r.append(type_sig.as_str());
        r.append(" ");
        r.append(decls.as_str());
        r
    } else if !type_sig.as_str().is_empty() {
        let mut r = String::from_str("typedef ");
        r.append(type_sig.as_str());
        r
    } else if any {
        let mut r = String::from_str("typedef ");
        r.append(decls.as_str());
        r
    } else {
        first_line(node.text.as_str())
    }
}

/// Extract a compact signature from a definition node
pub fn extract_signature(node: &SyntaxNode, lang: Lang) -> (r: String)
    ensures
        r@ == spec_sig_of(lang, *node),
{
    match lang {
        Lang::C => extract_c_signature(node),
    }
}

} // verus!
