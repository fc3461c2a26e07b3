//! The library's own picture of a parsed syntax node: the kind, the source
//! span and the children, as plain values. A host that owns a real parser
//! converts each node of the parser's tree into one of these.

use vstd::prelude::*;
use crate::lang::Lang;
use crate::lang::is_body_type;
use crate::lang::spec_is_body_kind;
use crate::text::str_eq;

verus! {

/// Maximum depth for definition search to prevent stack overflow
pub const MAX_DEFINITION_SEARCH_DEPTH: usize = 128;

/// One node of a parsed syntax tree, reduced to plain values.
///
/// Line numbers are 1-based; `end_col` is the 0-based column of the position
/// just past the node's last character. Byte offsets refer to the source
/// text the tree was parsed from. `field_name` is the name of the field
/// under which the node hangs off its parent, if the grammar names one.
pub struct SyntaxNode {
    /// The grammar's name for this node.
    pub kind: String,
    /// The source text the node spans.
    pub text: String,
    /// First line of the node's span, 1-based.
    pub start_line: usize,
    /// Last line of the node's span, 1-based.
    pub end_line: usize,
    /// Column just past the node's last character, 0-based.
    pub end_col: usize,
    /// Byte offset of the span's start in the source text.
    pub start_byte: usize,
    /// Byte offset just past the span's end in the source text.
    pub end_byte: usize,
    /// The parent's field name for this child, if any.
    pub field_name: Option<String>,
    /// The node's children, in source order.
    pub children: Vec<SyntaxNode>,
}

/// The node's span size in bytes; a span whose end precedes its start counts
/// as empty.
pub open spec fn spec_span_size(n: SyntaxNode) -> int {
    if n.end_byte >= n.start_byte {
        n.end_byte - n.start_byte
    } else {
        0
    }
}

/// The node's span size in bytes.
pub fn span_size(n: &SyntaxNode) -> (r: usize)
    ensures
        r == spec_span_size(*n),
{
    if n.end_byte >= n.start_byte {
        n.end_byte - n.start_byte
    } else {
        0
    }
}

/// Whether the node's span contains the given 1-based line. A node whose
/// span ends at column 0 of its last line does not occupy that line: such a
/// span stops right after the newline that precedes it.
pub open spec fn spec_contains_line(n: SyntaxNode, line: int) -> bool {
    &&& n.start_line <= line
    &&& line <= n.end_line
    &&& !(line == n.end_line && n.end_col == 0)
}

/// Check if a node contains the target line.
pub fn contains_line(n: &SyntaxNode, line: usize) -> (r: bool)
    ensures
        r == spec_contains_line(*n, line as int),
{
    if line < n.start_line || line > n.end_line {
        return false;
    }
    if line == n.end_line && n.end_col == 0 {
        return false;
    }
    true
}

/// Whether some direct child of `n` is body evidence for a compound kind.
pub open spec fn spec_has_body(lang: Lang, n: SyntaxNode) -> bool {
    exists|i: int|
        0 <= i < n.children@.len() && spec_is_body_kind(lang, #[trigger] n.children@[i].kind@)
}

/// Check if a compound type has a body
pub fn has_body(n: &SyntaxNode, lang: Lang) -> (r: bool)
    ensures
        r == spec_has_body(lang, *n),
{
    let mut i: usize = 0;
    while i < n.children.len()
        invariant
            i <= n.children@.len(),
            forall|j: int| 0 <= j < i ==> !spec_is_body_kind(lang, #[trigger] n.children@[j].kind@),
        decreases n.children@.len() - i,
    {
        if is_body_type(n.children[i].kind.as_str(), lang) {
            return true;
        }
        i = i + 1;
    }
    false
}

/// The first child of `n` from position `i` on whose field name is `name`.
pub open spec fn spec_field_child_from(cs: Seq<SyntaxNode>, i: int, name: Seq<char>) -> Option<
    SyntaxNode,
>
    decreases cs.len() - i,
{
    if i < 0 || i >= cs.len() {
        None
    } else if cs[i].field_name matches Some(f) && f@ == name {
        Some(cs[i])
    } else {
        spec_field_child_from(cs, i + 1, name)
    }
}

/// The first child of `n` attached under the field called `name`.
pub open spec fn spec_field_child(n: SyntaxNode, name: Seq<char>) -> Option<SyntaxNode> {
    spec_field_child_from(n.children@, 0, name)
}

/// Whether `c` hangs off its parent under the field called `name`.
pub open spec fn spec_has_field_name(c: SyntaxNode, name: Seq<char>) -> bool {
    c.field_name matches Some(f) && f@ == name
}

/// Check whether this child's field name is `name`.
pub fn has_field_name(c: &SyntaxNode, name: &str) -> (r: bool)
    ensures
        r == spec_has_field_name(*c, name@),
{
    match &c.field_name {
        Some(f) => str_eq(f.as_str(), name),
        None => false,
    }
}

/// The first child attached under the field called `name`, if any.
pub fn child_by_field_name<'a>(n: &'a SyntaxNode, name: &str) -> (r: Option<&'a SyntaxNode>)
    ensures
        match r {
            Some(c) => spec_field_child(*n, name@) == Some(*c),
            None => spec_field_child(*n, name@) is None,
        },
{
    let mut i: usize = 0;
    while i < n.children.len()
        invariant
            i <= n.children@.len(),
            spec_field_child(*n, name@) == spec_field_child_from(n.children@, i as int, name@),
        decreases n.children@.len() - i,
    {
        if has_field_name(&n.children[i], name) {
            return Some(&n.children[i]);
        }
        i = i + 1;
    }
    None
}

} // verus!
