//! The two queries the library answers: the innermost definition enclosing
//! a line, and the outline of a whole file.

use vstd::prelude::*;
use crate::lang::Lang;
use crate::node::SyntaxNode;
use crate::records::DefRecord;
use crate::records::Definition;
use crate::records::OutlineEntry;
use crate::records::OutlineRecord;
use crate::records::defs_view;
use crate::records::entries_view;
use crate::sort::sort_by_line;
use crate::sort::sort_entries;
use crate::walk::innermost_of;
use crate::walk::surviving_defs;
use crate::walk::surviving_outline;
use crate::walk::traverse_for_line;
use crate::walk::traverse_for_outline;
use crate::walk::walk_outline;
use crate::walk::walk_point;

verus! {

/// The record a point query at `line` answers with, if any: the innermost
/// (smallest byte span, earliest on ties) of the definitions that contain
/// the line and survive typedef-child suppression.
pub open spec fn spec_find_result(lang: Lang, root: SyntaxNode, line: int) -> Option<DefRecord> {
    innermost_of(surviving_defs(walk_point(lang, root, line, 0, false)))
}

/// The records an outline query answers with: every definition the walk
/// classifies, minus typedef-wrapped compound types, sorted by start line.
pub open spec fn spec_outline_result(lang: Lang, root: SyntaxNode) -> Seq<OutlineRecord> {
    sort_by_line(surviving_outline(walk_outline(lang, root, 0, false)))
}

/// Find the innermost definition for a given line number
///
/// Returns the source text, 1-based start line and node kind of the
/// innermost definition whose span contains `line_number`, or `None` when
/// no definition survives typedef-child suppression there.
pub fn find_innermost_definition(root: &SyntaxNode, line_number: usize, lang: Lang) -> (r: Option<
    (String, usize, String),
>)
    requires
        line_number >= 1,
    ensures
        match r {
            None => spec_find_result(lang, *root, line_number as int) is None,
            Some(t) => spec_find_result(lang, *root, line_number as int) matches Some(rec)
                && t.0@ == rec.code && t.1 == rec.start_line && t.2@ == rec.def_type,
        },
{
    let mut definitions: Vec<Definition> = Vec::new();
    traverse_for_line(root, line_number, 0, &mut definitions, lang, false);
    proof {
        assert(defs_view(definitions@) =~= Seq::<DefRecord>::empty() + walk_point(
            lang,
            *root,
            line_number as int,
            0,
            false,
        ));
        assert(defs_view(definitions@) =~= walk_point(lang, *root, line_number as int, 0, false));
    }
    let ghost dv = defs_view(definitions@);
    let mut best: Option<usize> = None;
    let mut i: usize = 0;
    while i < definitions.len()
        invariant
            i <= definitions@.len(),
            dv == defs_view(definitions@),
            match best {
                None => innermost_of(surviving_defs(dv.take(i as int))) is None,
                Some(b) => b < i && innermost_of(surviving_defs(dv.take(i as int))) == Some(
                    definitions@[b as int]@,
                ),
            },
        decreases definitions@.len() - i,
    {
        let ghost pre = surviving_defs(dv.take(i as int));
        proof {
            assert(dv.take(i as int + 1).drop_last() =~= dv.take(i as int));
            assert(dv.take(i as int + 1).last() == definitions@[i as int]@);
            let ext = surviving_defs(dv.take(i as int + 1));
            if definitions@[i as int]@.is_typedef_child {
                assert(ext =~= pre + Seq::<DefRecord>::empty());
                assert(ext =~= pre);
            } else {
                assert(ext == pre + seq![definitions@[i as int]@]);
                assert((pre + seq![definitions@[i as int]@]).drop_last() =~= pre);
                assert((pre + seq![definitions@[i as int]@]).last() == definitions@[i as int]@);
            }
        }
        if !definitions[i].is_typedef_child {
            match best {
                None => {
                    best = Some(i);
                },
                Some(b) => {
                    if definitions[i].size < definitions[b].size {
                        best = Some(i);
                    }
                },
            }
        }
        i = i + 1;
    }
    proof {
        assert(dv.take(definitions@.len() as int) =~= dv);
    }
    match best {
        None => None,
        Some(b) => {
            let d = &definitions[b];
            Some((d.code.clone(), d.start_line, d.def_type.clone()))
        },
    }
}

/// List all definitions in a file
///
/// Returns one entry per definition that survives typedef-child
/// suppression, sorted by start line, stably, each carrying its rendered
/// one-line signature.
pub fn list_outline(root: &SyntaxNode, lang: Lang) -> (r: Vec<OutlineEntry>)
    ensures
        entries_view(r@) == spec_outline_result(lang, *root),
{
    let mut entries: Vec<OutlineEntry> = Vec::new();
    traverse_for_outline(root, 0, &mut entries, lang, false);
    proof {
        assert(entries_view(entries@) =~= Seq::<OutlineRecord>::empty() + surviving_outline(
            walk_outline(lang, *root, 0, false),
        ));
        assert(entries_view(entries@) =~= surviving_outline(walk_outline(lang, *root, 0, false)));
    }
    sort_entries(&mut entries);
    entries
}

} // verus!
