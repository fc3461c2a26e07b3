//! The tree walker: one depth-bounded recursive descent per query that
//! classifies every visited node against the language profile and collects
//! the classified definitions in pre-order.

use vstd::prelude::*;
use crate::lang::Lang;
use crate::lang::is_compound_type;
use crate::lang::is_definition_type;
use crate::lang::is_type_alias_type;
use crate::lang::spec_is_compound_kind;
use crate::lang::spec_is_definition_kind;
use crate::lang::spec_is_type_alias_kind;
use crate::node::MAX_DEFINITION_SEARCH_DEPTH;
use crate::node::SyntaxNode;
use crate::node::contains_line;
use crate::node::has_body;
use crate::node::span_size;
use crate::node::spec_contains_line;
use crate::node::spec_has_body;
use crate::node::spec_span_size;
use crate::records::DefRecord;
use crate::records::Definition;
use crate::records::OutlineEntry;
use crate::records::OutlineRecord;
use crate::records::defs_view;
use crate::records::entries_view;
use crate::signature::extract_signature;
use crate::signature::spec_sig_of;

verus! {

/// Whether the walk classifies `n` as a definition: either its kind is a
/// definition by itself, or it is a compound kind carrying a body.
pub open spec fn spec_is_def(lang: Lang, n: SyntaxNode) -> bool {
    spec_is_definition_kind(lang, n.kind@) || (spec_is_compound_kind(lang, n.kind@)
        && spec_has_body(lang, n))
}

/// Whether `n` makes its descendants walk with the typedef-ancestor flag
/// set: it is classified as a definition and its kind is the type-alias
/// kind.
pub open spec fn spec_marks_typedef(lang: Lang, n: SyntaxNode) -> bool {
    spec_is_definition_kind(lang, n.kind@) && spec_is_type_alias_kind(lang, n.kind@)
}

/// The record a point-mode walk collects for a classified node.
pub open spec fn spec_line_record(lang: Lang, n: SyntaxNode, in_typedef: bool) -> DefRecord {
    DefRecord {
        code: n.text@,
        start_line: n.start_line as int,
        end_line: n.end_line as int,
        def_type: n.kind@,
        size: spec_span_size(n),
        is_typedef_child: in_typedef && spec_is_compound_kind(lang, n.kind@),
    }
}

/// The record an outline-mode walk collects for a classified node.
pub open spec fn spec_outline_record(lang: Lang, n: SyntaxNode, in_typedef: bool) -> OutlineRecord {
    OutlineRecord {
        line: n.start_line as int,
        end_line: n.end_line as int,
        signature: spec_sig_of(lang, n),
        def_type: n.kind@,
        is_typedef_child: in_typedef && !spec_is_definition_kind(lang, n.kind@)
            && spec_is_compound_kind(lang, n.kind@) && spec_has_body(lang, n),
    }
}

/// The records of a point-mode walk of `n` at `depth`: nothing below the
/// depth bound or outside spans containing `line`; otherwise the node's own
/// record, if classified, followed by its children's records in order.
pub open spec fn walk_point(
    lang: Lang,
    n: SyntaxNode,
    line: int,
    depth: int,
    in_typedef: bool,
) -> Seq<DefRecord>
    decreases MAX_DEFINITION_SEARCH_DEPTH - depth, 0int, 0int,
{
    if depth < 0 || depth >= MAX_DEFINITION_SEARCH_DEPTH {
        Seq::empty()
    } else if !spec_contains_line(n, line) {
        Seq::empty()
    } else {
        (if spec_is_def(lang, n) {
            seq![spec_line_record(lang, n, in_typedef)]
        } else {
            Seq::empty()
        }) + walk_point_children(
            lang,
            n.children@,
            n.children@.len() as int,
            line,
            depth + 1,
            in_typedef || spec_marks_typedef(lang, n),
        )
    }
}

/// The records of point-mode walks of the first `k` nodes of `cs`.
pub open spec fn walk_point_children(
    lang: Lang,
    cs: Seq<SyntaxNode>,
    k: int,
    line: int,
    depth: int,
    in_typedef: bool,
) -> Seq<DefRecord>
    decreases MAX_DEFINITION_SEARCH_DEPTH - depth, 1int, k,
{
    if k <= 0 || k > cs.len() || depth < 0 || depth > MAX_DEFINITION_SEARCH_DEPTH {
        Seq::empty()
    } else {
        walk_point_children(lang, cs, k - 1, line, depth, in_typedef) + walk_point(
            lang,
            cs[k - 1],
            line,
            depth,
            in_typedef,
        )
    }
}

/// The records of an outline-mode walk of `n` at `depth`: nothing below the
/// depth bound; otherwise the node's own record, if classified, followed by
/// its children's records in order.
pub open spec fn walk_outline(lang: Lang, n: SyntaxNode, depth: int, in_typedef: bool) -> Seq<
    OutlineRecord,
>
    decreases MAX_DEFINITION_SEARCH_DEPTH - depth, 0int, 0int,
{
    if depth < 0 || depth >= MAX_DEFINITION_SEARCH_DEPTH {
        Seq::empty()
    } else {
        (if spec_is_def(lang, n) {
            seq![spec_outline_record(lang, n, in_typedef)]
        } else {
            Seq::empty()
        }) + walk_outline_children(
            lang,
            n.children@,
            n.children@.len() as int,
            depth + 1,
            in_typedef || spec_marks_typedef(lang, n),
        )
    }
}

/// The records of outline-mode walks of the first `k` nodes of `cs`.
pub open spec fn walk_outline_children(
    lang: Lang,
    cs: Seq<SyntaxNode>,
    k: int,
    depth: int,
    in_typedef: bool,
) -> Seq<OutlineRecord>
    decreases MAX_DEFINITION_SEARCH_DEPTH - depth, 1int, k,
{
    if k <= 0 || k > cs.len() || depth < 0 || depth > MAX_DEFINITION_SEARCH_DEPTH {
        Seq::empty()
    } else {
        walk_outline_children(lang, cs, k - 1, depth, in_typedef) + walk_outline(
            lang,
            cs[k - 1],
            depth,
            in_typedef,
        )
    }
}

/// The records that survive typedef-child suppression, in their walk order.
pub open spec fn surviving_defs(s: Seq<DefRecord>) -> Seq<DefRecord>
    decreases s.len(),
{
    if s.len() == 0 {
        Seq::empty()
    } else {
        surviving_defs(s.drop_last()) + (if s.last().is_typedef_child {
            Seq::empty()
        } else {
            seq![s.last()]
        })
    }
}

/// The outline records that survive typedef-child suppression, in their
/// walk order.
pub open spec fn surviving_outline(s: Seq<OutlineRecord>) -> Seq<OutlineRecord>
    decreases s.len(),
{
    if s.len() == 0 {
        Seq::empty()
    } else {
        surviving_outline(s.drop_last()) + (if s.last().is_typedef_child {
            Seq::empty()
        } else {
            seq![s.last()]
        })
    }
}

/// The innermost definition among `s`: the record of smallest byte span,
/// the earliest such record when several tie.
pub open spec fn innermost_of(s: Seq<DefRecord>) -> Option<DefRecord>
    decreases s.len(),
{
    if s.len() == 0 {
        None
    } else {
        match innermost_of(s.drop_last()) {
            None => Some(s.last()),
            Some(b) => if s.last().size < b.size {
                Some(s.last())
            } else {
                Some(b)
            },
        }
    }
}

/// Traverse the AST and collect matching definitions for a specific line
pub(crate) fn traverse_for_line(
    node: &SyntaxNode,
    target_line: usize,
    depth: usize,
    definitions: &mut Vec<Definition>,
    lang: Lang,
    is_parent_typedef: bool,
)
    ensures
        defs_view(final(definitions)@) == defs_view(old(definitions)@) + walk_point(
            lang,
            *node,
            target_line as int,
            depth as int,
            is_parent_typedef,
        ),
    decreases MAX_DEFINITION_SEARCH_DEPTH - depth,
{
    if depth >= MAX_DEFINITION_SEARCH_DEPTH {
        proof {
            assert(defs_view(definitions@) =~= defs_view(definitions@) + Seq::<
                DefRecord,
            >::empty());
        }
        return ;
    }
    if !contains_line(node, target_line) {
        proof {
            assert(defs_view(definitions@) =~= defs_view(definitions@) + Seq::<
                DefRecord,
            >::empty());
        }
        return ;
    }
    let node_type = node.kind.as_str();
    let mut is_definition = false;
    let mut mark_compound_child = false;

    if is_definition_type(node_type, lang) {
        is_definition = true;
        if is_type_alias_type(node_type, lang) {
            mark_compound_child = true;
        }
    } else if is_compound_type(node_type, lang) && has_body(node, lang) {
        is_definition = true;
    }

    if is_definition {
        let d = Definition {
            code: node.text.clone(),
            start_line: node.start_line,
            end_line: node.end_line,
            def_type: node.kind.clone(),
            size: span_size(node),
            is_typedef_child: is_parent_typedef && is_compound_type(node_type, lang),
        };
        let ghost before = definitions@;
        definitions.push(d);
        proof {
            assert(defs_view(definitions@) =~= defs_view(before).push(
                spec_line_record(lang, *node, is_parent_typedef),
            ));
            assert(defs_view(definitions@) =~= defs_view(before) + seq![
                spec_line_record(lang, *node, is_parent_typedef),
            ]);
        }
    }
    let ghost base = defs_view(definitions@);
    let flag = mark_compound_child || is_parent_typedef;
    let ghost cs = node.children@;
    let mut i: usize = 0;
    while i < node.children.len()
        invariant
            i <= cs.len(),
            defs_view(definitions@) == base + walk_point_children(
                lang,
                cs,
                i as int,
                target_line as int,
                depth as int + 1,
                flag,
            ),
        decreases cs.len() - i,
    {
        let ghost prefix = walk_point_children(
            lang,
            cs,
            i as int,
            target_line as int,
            depth as int + 1,
            flag,
        );
        traverse_for_line(&node.children[i], target_line, depth + 1, definitions, lang, flag);
        proof {
            let one = walk_point(lang, cs[i as int], target_line as int, depth as int + 1, flag);
            assert((base + prefix) + one =~= base + (prefix + one));
        }
        i = i + 1;
    }
    proof {
        let whole = walk_point(lang, *node, target_line as int, depth as int, is_parent_typedef);
        let kids = walk_point_children(
            lang,
            cs,
            cs.len() as int,
            target_line as int,
            depth as int + 1,
            flag,
        );
        if is_definition {
            assert(whole =~= seq![spec_line_record(lang, *node, is_parent_typedef)] + kids);
            assert(defs_view(old(definitions)@) + whole =~= (defs_view(old(definitions)@) + seq![
                spec_line_record(lang, *node, is_parent_typedef),
            ]) + kids);
        } else {
            assert(whole =~= Seq::<DefRecord>::empty() + kids);
            assert(whole =~= kids);
        }
    }
}

/// Traverse the AST and collect all definitions for outline
pub(crate) fn traverse_for_outline(
    node: &SyntaxNode,
    depth: usize,
    entries: &mut Vec<OutlineEntry>,
    lang: Lang,
    is_parent_typedef: bool,
)
    ensures
        entries_view(final(entries)@) == entries_view(old(entries)@) + surviving_outline(
            walk_outline(lang, *node, depth as int, is_parent_typedef),
        ),
    decreases MAX_DEFINITION_SEARCH_DEPTH - depth,
{
    if depth >= MAX_DEFINITION_SEARCH_DEPTH {
        proof {
            assert(entries_view(entries@) =~= entries_view(entries@) + surviving_outline(
                Seq::<OutlineRecord>::empty(),
            ));
        }
        return ;
    }
    let node_type = node.kind.as_str();
    let mut is_definition = false;
    let mut mark_compound_child = false;
    let mut skip_as_typedef_child = false;

    if is_definition_type(node_type, lang) {
        is_definition = true;
        if is_type_alias_type(node_type, lang) {
            mark_compound_child = true;
        }
    } else if is_compound_type(node_type, lang) && has_body(node, lang) {
        is_definition = true;
        if is_parent_typedef {
            skip_as_typedef_child = true;
        }
    }

    if is_definition && !skip_as_typedef_child {
        let e = OutlineEntry {
            line: node.start_line,
            end_line: node.end_line,
            signature: extract_signature(node, lang),
            def_type: node.kind.clone(),
        };
        let ghost before = entries@;
        entries.push(e);
        proof {
            assert(entries_view(entries@) =~= entries_view(before).push(
                spec_outline_record(lang, *node, is_parent_typedef),
            ));
            assert(entries_view(entries@) =~= entries_view(before) + seq![
                spec_outline_record(lang, *node, is_parent_typedef),
            ]);
        }
    }
    let ghost base = entries_view(entries@);
    let flag = mark_compound_child || is_parent_typedef;
    let ghost cs = node.children@;
    let mut i: usize = 0;
    while i < node.children.len()
        invariant
            i <= cs.len(),
            entries_view(entries@) == base + surviving_outline(
                walk_outline_children(lang, cs, i as int, depth as int + 1, flag),
            ),
        decreases cs.len() - i,
    {
        let ghost prefix = walk_outline_children(lang, cs, i as int, depth as int + 1, flag);
        traverse_for_outline(&node.children[i], depth + 1, entries, lang, flag);
        proof {
            let one = walk_outline(lang, cs[i as int], depth as int + 1, flag);
            lemma_surviving_outline_add(prefix, one);
            assert((base + surviving_outline(prefix)) + surviving_outline(one) =~= base + (
            surviving_outline(prefix) + surviving_outline(one)));
        }
        i = i + 1;
    }
    proof {
        let whole = walk_outline(lang, *node, depth as int, is_parent_typedef);
        let kids = walk_outline_children(lang, cs, cs.len() as int, depth as int + 1, flag);
        let rec = spec_outline_record(lang, *node, is_parent_typedef);
        if is_definition {
            assert(whole =~= seq![rec] + kids);
            lemma_surviving_outline_add(seq![rec], kids);
            reveal_with_fuel(surviving_outline, 2);
            assert(seq![rec].drop_last() =~= Seq::<OutlineRecord>::empty());
            assert(seq![rec].last() == rec);
            if skip_as_typedef_child {
                assert(rec.is_typedef_child);
                assert(surviving_outline(seq![rec]) =~= Seq::<OutlineRecord>::empty());
                assert(entries_view(old(entries)@) + surviving_outline(whole) =~= base
                    + surviving_outline(kids));
            } else {
                assert(!rec.is_typedef_child);
                assert(surviving_outline(seq![rec]) =~= seq![rec]);
                assert(entries_view(old(entries)@) + surviving_outline(whole) =~= (entries_view(
                    old(entries)@,
                ) + seq![rec]) + surviving_outline(kids));
            }
        } else {
            assert(whole =~= Seq::<OutlineRecord>::empty() + kids);
            assert(whole =~= kids);
        }
    }
}

/// Suppression distributes over concatenation of record sequences.
pub proof fn lemma_surviving_outline_add(a: Seq<OutlineRecord>, b: Seq<OutlineRecord>)
    ensures
        surviving_outline(a + b) == surviving_outline(a) + surviving_outline(b),
    decreases b.len(),
{
    if b.len() == 0 {
        assert(a + b =~= a);
        assert(surviving_outline(a) + Seq::<OutlineRecord>::empty() =~= surviving_outline(a));
    } else {
        lemma_surviving_outline_add(a, b.drop_last());
        assert((a + b).drop_last() =~= a + b.drop_last());
        assert((a + b).last() == b.last());
        assert(surviving_outline(a) + surviving_outline(b.drop_last()) + (if b.last().is_typedef_child {
            Seq::<OutlineRecord>::empty()
        } else {
            seq![b.last()]
        }) =~= surviving_outline(a) + surviving_outline(b));
    }
}

} // verus!
