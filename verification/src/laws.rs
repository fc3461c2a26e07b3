//! Properties of the queries, stated and proved over the walk and query
//! specifications.

use vstd::prelude::*;
use crate::lang::Lang;
use crate::lang::spec_is_compound_kind;
use crate::lang::spec_is_definition_kind;
use crate::node::MAX_DEFINITION_SEARCH_DEPTH;
use crate::node::SyntaxNode;
use crate::node::spec_contains_line;
use crate::node::spec_has_body;
use crate::query::spec_find_result;
use crate::query::spec_outline_result;
use crate::records::DefRecord;
use crate::records::OutlineRecord;
use crate::sort::lemma_sort_by_line_sorted;
use crate::sort::line_sorted;
use crate::walk::innermost_of;
use crate::walk::spec_is_def;
use crate::walk::surviving_defs;
use crate::walk::surviving_outline;
use crate::walk::walk_outline;
use crate::walk::walk_outline_children;
use crate::walk::walk_point;

verus! {

/// Whether every node span down to the walked depth is proper: its start
/// line does not exceed its end line.
pub open spec fn spans_ok(n: SyntaxNode, depth: int) -> bool
    decreases MAX_DEFINITION_SEARCH_DEPTH - depth, 0int, 0int,
{
    if depth < 0 || depth >= MAX_DEFINITION_SEARCH_DEPTH {
        true
    } else {
        n.start_line <= n.end_line && spans_ok_children(
            n.children@,
            n.children@.len() as int,
            depth + 1,
        )
    }
}

/// [`spans_ok`] over the first `k` nodes of `cs`.
pub open spec fn spans_ok_children(cs: Seq<SyntaxNode>, k: int, depth: int) -> bool
    decreases MAX_DEFINITION_SEARCH_DEPTH - depth, 1int, k,
{
    if k <= 0 || k > cs.len() || depth < 0 || depth > MAX_DEFINITION_SEARCH_DEPTH {
        true
    } else {
        spans_ok_children(cs, k - 1, depth) && spans_ok(cs[k - 1], depth)
    }
}

/// On a tree with proper spans, every record an outline walk collects has
/// a proper span too.
pub proof fn lemma_walk_outline_spans(lang: Lang, n: SyntaxNode, depth: int, in_typedef: bool)
    requires
        spans_ok(n, depth),
    ensures
        forall|i: int|
            0 <= i < walk_outline(lang, n, depth, in_typedef).len() ==> (#[trigger] walk_outline(
                lang,
                n,
                depth,
                in_typedef,
            )[i]).line <= walk_outline(lang, n, depth, in_typedef)[i].end_line,
    decreases MAX_DEFINITION_SEARCH_DEPTH - depth, 0int, 0int,
{
    if 0 <= depth < MAX_DEFINITION_SEARCH_DEPTH {
        let cs = n.children@;
        let flag = in_typedef || crate::walk::spec_marks_typedef(lang, n);
        lemma_walk_outline_children_spans(lang, cs, cs.len() as int, depth + 1, flag);
        let r = walk_outline(lang, n, depth, in_typedef);
        let kids = walk_outline_children(lang, cs, cs.len() as int, depth + 1, flag);
        assert forall|i: int| 0 <= i < r.len() implies (#[trigger] r[i]).line
            <= r[i].end_line by {
            if spec_is_def(lang, n) {
                if i == 0 {
                    assert(r[0] == crate::walk::spec_outline_record(lang, n, in_typedef));
                } else {
                    assert(r[i] == kids[i - 1]);
                }
            } else {
                assert(r[i] == kids[i]);
            }
        }
    }
}

/// [`lemma_walk_outline_spans`] over the first `k` nodes of `cs`.
pub proof fn lemma_walk_outline_children_spans(
    lang: Lang,
    cs: Seq<SyntaxNode>,
    k: int,
    depth: int,
    in_typedef: bool,
)
    requires
        spans_ok_children(cs, k, depth),
    ensures
        forall|i: int|
            0 <= i < walk_outline_children(lang, cs, k, depth, in_typedef).len() ==> (
            #[trigger] walk_outline_children(lang, cs, k, depth, in_typedef)[i]).line
                <= walk_outline_children(lang, cs, k, depth, in_typedef)[i].end_line,
    decreases MAX_DEFINITION_SEARCH_DEPTH - depth, 1int, k,
{
    if k <= 0 || k > cs.len() || depth < 0 || depth > MAX_DEFINITION_SEARCH_DEPTH {
    } else {
        lemma_walk_outline_children_spans(lang, cs, k - 1, depth, in_typedef);
        lemma_walk_outline_spans(lang, cs[k - 1], depth, in_typedef);
        let r = walk_outline_children(lang, cs, k, depth, in_typedef);
        let rest = walk_outline_children(lang, cs, k - 1, depth, in_typedef);
        let one = walk_outline(lang, cs[k - 1], depth, in_typedef);
        assert forall|i: int| 0 <= i < r.len() implies (#[trigger] r[i]).line
            <= r[i].end_line by {
            if i < rest.len() {
                assert(r[i] == rest[i]);
            } else {
                assert(r[i] == one[i - rest.len()]);
            }
        }
    }
}

/// Typedef-child suppression keeps only records of its input, and only
/// those without the typedef-child mark.
pub proof fn lemma_surviving_outline_elements(s: Seq<OutlineRecord>)
    ensures
        forall|i: int|
            0 <= i < surviving_outline(s).len() ==> s.contains(#[trigger] surviving_outline(s)[i])
                && !surviving_outline(s)[i].is_typedef_child,
    decreases s.len(),
{
    if s.len() == 0 {
    } else {
        lemma_surviving_outline_elements(s.drop_last());
        let pre = s.drop_last();
        assert(forall|j: int|
            0 <= j < pre.len() && pre.contains(#[trigger] pre[j]) ==> s.contains(pre[j])) by {
            assert(forall|j: int| 0 <= j < pre.len() ==> pre[j] == #[trigger] s[j]);
        }
        assert(forall|i: int|
            0 <= i < surviving_outline(pre).len() ==> s.contains(
                #[trigger] surviving_outline(pre)[i],
            )) by {
            assert(forall|i: int|
                #![trigger surviving_outline(pre)[i]]
                0 <= i < surviving_outline(pre).len() ==> exists|j: int|
                    0 <= j < pre.len() && #[trigger] pre[j] == surviving_outline(pre)[i]);
        }
        if !s.last().is_typedef_child {
            assert(s.contains(s.last())) by {
                assert(s[s.len() - 1] == s.last());
            }
        }
    }
}

/// The same, for the records of a point walk.
pub proof fn lemma_surviving_defs_elements(s: Seq<DefRecord>)
    ensures
        forall|i: int|
            0 <= i < surviving_defs(s).len() ==> s.contains(#[trigger] surviving_defs(s)[i])
                && !surviving_defs(s)[i].is_typedef_child,
    decreases s.len(),
{
    if s.len() == 0 {
    } else {
        lemma_surviving_defs_elements(s.drop_last());
        let pre = s.drop_last();
        assert(forall|i: int|
            0 <= i < surviving_defs(pre).len() ==> s.contains(#[trigger] surviving_defs(pre)[i]))
            by {
            assert(forall|i: int|
                #![trigger surviving_defs(pre)[i]]
                0 <= i < surviving_defs(pre).len() ==> exists|j: int|
                    0 <= j < pre.len() && #[trigger] pre[j] == surviving_defs(pre)[i]);
            assert(forall|j: int| 0 <= j < pre.len() ==> pre[j] == #[trigger] s[j]);
        }
        if !s.last().is_typedef_child {
            assert(s.contains(s.last())) by {
                assert(s[s.len() - 1] == s.last());
            }
        }
    }
}

/// The innermost record, when there is one, comes from the sequence and no
/// record of the sequence has a smaller byte span.
pub proof fn lemma_innermost_minimal(s: Seq<DefRecord>)
    ensures
        innermost_of(s) matches Some(b) ==> s.contains(b) && forall|j: int|
            0 <= j < s.len() ==> (#[trigger] s[j]).size >= b.size,
        innermost_of(s) is None <==> s.len() == 0,
    decreases s.len(),
{
    if s.len() == 0 {
    } else {
        lemma_innermost_minimal(s.drop_last());
        let pre = s.drop_last();
        assert(forall|j: int| 0 <= j < pre.len() ==> pre[j] == #[trigger] s[j]);
        assert(s[s.len() - 1] == s.last());
        match innermost_of(pre) {
            Some(b) => {
                assert(exists|j: int| 0 <= j < pre.len() && #[trigger] pre[j] == b);
            },
            None => {},
        }
    }
}

/// A point query whose target line lies inside exactly one surviving
/// definition, a function definition, answers with that function: its kind
/// and its first line.
pub proof fn lemma_point_in_plain_function(lang: Lang, root: SyntaxNode, line: int)
    requires
        surviving_defs(walk_point(lang, root, line, 0, false)).len() == 1,
        surviving_defs(walk_point(lang, root, line, 0, false))[0].def_type
            == "function_definition"@,
    ensures
        spec_find_result(lang, root, line) == Some(
            surviving_defs(walk_point(lang, root, line, 0, false))[0],
        ),
        spec_find_result(lang, root, line) matches Some(rec) && rec.def_type
            == "function_definition"@ && rec.start_line == surviving_defs(
            walk_point(lang, root, line, 0, false),
        )[0].start_line,
{
    let s = surviving_defs(walk_point(lang, root, line, 0, false));
    assert(s.drop_last().len() == 0);
    assert(innermost_of(s.drop_last()) is None);
    assert(s.last() == s[0]);
}

/// A compound type wrapped by a type alias is never the point answer: the
/// record a point query returns never carries the typedef-child mark.
pub proof fn lemma_typedef_child_never_answer(lang: Lang, root: SyntaxNode, line: int)
    ensures
        spec_find_result(lang, root, line) matches Some(rec) ==> !rec.is_typedef_child,
{
    let w = walk_point(lang, root, line, 0, false);
    let s = surviving_defs(w);
    lemma_surviving_defs_elements(w);
    lemma_innermost_minimal(s);
    match innermost_of(s) {
        Some(rec) => {
            assert(s.contains(rec));
            let i = choose|i: int| 0 <= i < s.len() && s[i] == rec;
            assert(!s[i].is_typedef_child);
        },
        None => {},
    }
}

/// A compound type wrapped by a type alias never appears as its own
/// outline entry.
pub proof fn lemma_typedef_child_never_listed(lang: Lang, root: SyntaxNode)
    ensures
        forall|i: int|
            0 <= i < spec_outline_result(lang, root).len() ==> !(#[trigger] spec_outline_result(
                lang,
                root,
            )[i]).is_typedef_child,
{
    let w = walk_outline(lang, root, 0, false);
    let sv = surviving_outline(w);
    lemma_surviving_outline_elements(w);
    lemma_sort_by_line_sorted(sv);
    assert forall|i: int| 0 <= i < spec_outline_result(lang, root).len() implies !(
    #[trigger] spec_outline_result(lang, root)[i]).is_typedef_child by {
        let r = spec_outline_result(lang, root);
        assert(sv.contains(r[i]));
        let j = choose|j: int| 0 <= j < sv.len() && sv[j] == r[i];
        assert(!sv[j].is_typedef_child);
    }
}

/// A forward declaration — a compound kind with no body child — is never
/// classified as a definition, so neither walk records it.
pub proof fn lemma_forward_declaration_not_definition(lang: Lang, n: SyntaxNode)
    requires
        spec_is_compound_kind(lang, n.kind@),
        !spec_has_body(lang, n),
    ensures
        !spec_is_def(lang, n),
{
    lemma_kind_tables_disjoint(lang, n.kind@);
}

/// No compound kind is also a stand-alone definition kind.
pub proof fn lemma_kind_tables_disjoint(lang: Lang, kind: Seq<char>)
    requires
        spec_is_compound_kind(lang, kind),
    ensures
        !spec_is_definition_kind(lang, kind),
{
    reveal_strlit("struct_specifier");
    reveal_strlit("union_specifier");
    reveal_strlit("enum_specifier");
    reveal_strlit("function_definition");
    reveal_strlit("type_definition");
    reveal_strlit("preproc_def");
    reveal_strlit("preproc_function_def");
    assert("struct_specifier"@.len() == 16);
    assert("union_specifier"@.len() == 15);
    assert("enum_specifier"@.len() == 14);
    assert("function_definition"@.len() == 19);
    assert("type_definition"@.len() == 15);
    assert("preproc_def"@.len() == 11);
    assert("preproc_function_def"@.len() == 20);
    assert("union_specifier"@[0] == 'u');
    assert("type_definition"@[0] == 't');
}

/// Outline idempotence: two outline computations over the same tree and
/// language yield the same sequence of records.
pub proof fn lemma_outline_idempotent(
    lang: Lang,
    root: SyntaxNode,
    r1: Seq<OutlineRecord>,
    r2: Seq<OutlineRecord>,
)
    requires
        r1 == spec_outline_result(lang, root),
        r2 == spec_outline_result(lang, root),
    ensures
        r1 == r2,
{
}

/// Outline entries come in non-decreasing line order; on a tree whose node
/// spans are proper down to the walked depth, each entry's start line is at
/// most its end line.
pub proof fn lemma_outline_ordered(lang: Lang, root: SyntaxNode)
    ensures
        line_sorted(spec_outline_result(lang, root)),
        spans_ok(root, 0) ==> forall|i: int|
            0 <= i < spec_outline_result(lang, root).len() ==> (#[trigger] spec_outline_result(
                lang,
                root,
            )[i]).line <= spec_outline_result(lang, root)[i].end_line,
{
    let w = walk_outline(lang, root, 0, false);
    let sv = surviving_outline(w);
    lemma_sort_by_line_sorted(sv);
    if spans_ok(root, 0) {
        lemma_walk_outline_spans(lang, root, 0, false);
        lemma_surviving_outline_elements(w);
        assert forall|i: int| 0 <= i < spec_outline_result(lang, root).len() implies (
        #[trigger] spec_outline_result(lang, root)[i]).line <= spec_outline_result(
            lang,
            root,
        )[i].end_line by {
            let r = spec_outline_result(lang, root);
            assert(sv.contains(r[i]));
            let j = choose|j: int| 0 <= j < sv.len() && sv[j] == r[i];
            assert(w.contains(sv[j]));
            let m = choose|m: int| 0 <= m < w.len() && w[m] == sv[j];
            assert(w[m].line <= w[m].end_line);
        }
    }
}

/// The boundary rule: a definition whose span ends at column 0 of its last
/// line does not contain that line, while it does contain the line above.
pub proof fn lemma_closing_delimiter_boundary(n: SyntaxNode)
    requires
        n.end_col == 0,
        n.start_line < n.end_line,
    ensures
        !spec_contains_line(n, n.end_line as int),
        spec_contains_line(n, n.end_line as int - 1),
{
}

} // verus!
