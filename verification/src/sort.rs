//! Stable ordering of outline entries by start line.

use vstd::prelude::*;
use crate::records::OutlineEntry;
use crate::records::OutlineRecord;
use crate::records::entries_view;

verus! {

/// `e` placed into `s` after every record whose line does not exceed
/// `e.line`; on a sorted `s` this keeps records with equal lines in their
/// arrival order.
pub open spec fn insert_by_line(s: Seq<OutlineRecord>, e: OutlineRecord) -> Seq<OutlineRecord>
    decreases s.len(),
{
    if s.len() == 0 {
        seq![e]
    } else if s[0].line <= e.line {
        seq![s[0]] + insert_by_line(s.drop_first(), e)
    } else {
        seq![e] + s
    }
}

/// `s` sorted by start line, stably: each record in turn is placed into the
/// sorted image of the records before it.
pub open spec fn sort_by_line(s: Seq<OutlineRecord>) -> Seq<OutlineRecord>
    decreases s.len(),
{
    if s.len() == 0 {
        Seq::empty()
    } else {
        insert_by_line(sort_by_line(s.drop_last()), s.last())
    }
}

/// Non-decreasing start lines.
pub open spec fn line_sorted(s: Seq<OutlineRecord>) -> bool {
    forall|i: int, j: int| 0 <= i <= j < s.len() ==> s[i].line <= s[j].line
}

/// Placing a record into a sorted sequence keeps it sorted, adds one to the
/// length, and adds no record that was not there before.
pub proof fn lemma_insert_by_line_sorted(s: Seq<OutlineRecord>, e: OutlineRecord)
    requires
        line_sorted(s),
    ensures
        line_sorted(insert_by_line(s, e)),
        insert_by_line(s, e).len() == s.len() + 1,
        forall|k: int|
            0 <= k < insert_by_line(s, e).len() ==> (insert_by_line(s, e)[k] == e || s.contains(
                #[trigger] insert_by_line(s, e)[k],
            )),
    decreases s.len(),
{
    let r = insert_by_line(s, e);
    if s.len() == 0 {
    } else if s[0].line <= e.line {
        let tail = s.drop_first();
        assert(line_sorted(tail)) by {
            assert(forall|i: int, j: int|
                0 <= i <= j < tail.len() ==> tail[i].line == s[i + 1].line && tail[j].line == s[j
                    + 1].line && s[i + 1].line <= s[j + 1].line);
        }
        lemma_insert_by_line_sorted(tail, e);
        let r0 = insert_by_line(tail, e);
        assert(forall|k: int| 0 <= k < r0.len() ==> s[0].line <= #[trigger] r0[k].line) by {
            assert(forall|k: int|
                0 <= k < r0.len() && r0[k] != e ==> tail.contains(#[trigger] r0[k]));
            assert(forall|k: int|
                #![trigger tail.contains(r0[k])]
                0 <= k < r0.len() && tail.contains(r0[k]) ==> exists|j: int|
                    0 <= j < tail.len() && tail[j] == r0[k]);
            assert(forall|j: int| 0 <= j < tail.len() ==> s[0].line <= #[trigger] tail[j].line);
        }
        assert(forall|i: int, j: int| 0 <= i <= j < r.len() ==> r[i].line <= r[j].line) by {
            assert(forall|k: int| 0 <= k < r0.len() ==> r[k + 1] == #[trigger] r0[k]);
            assert(r[0] == s[0]);
        }
        assert(forall|k: int|
            0 <= k < r.len() ==> (r[k] == e || s.contains(#[trigger] r[k]))) by {
            assert(forall|k: int|
                #![trigger tail.contains(r0[k])]
                0 <= k < r0.len() && tail.contains(r0[k]) ==> exists|j: int|
                    0 <= j < tail.len() && #[trigger] tail[j] == r0[k] && s[j + 1] == r0[k]);
            assert(forall|k: int| 0 <= k < r0.len() ==> r[k + 1] == #[trigger] r0[k]);
            assert(r[0] == s[0] && s.contains(s[0]));
        }
    } else {
        assert(forall|k: int| 0 <= k < s.len() ==> r[k + 1] == #[trigger] s[k] && s.contains(s[k]));
        assert(forall|i: int, j: int| 0 <= i <= j < r.len() ==> r[i].line <= r[j].line) by {
            assert(forall|k: int| 0 <= k < s.len() ==> e.line <= #[trigger] s[k].line);
        }
    }
}

/// The stable sort is sorted, keeps the length, and holds only records of
/// its input.
pub proof fn lemma_sort_by_line_sorted(s: Seq<OutlineRecord>)
    ensures
        line_sorted(sort_by_line(s)),
        sort_by_line(s).len() == s.len(),
        forall|k: int|
            0 <= k < sort_by_line(s).len() ==> s.contains(#[trigger] sort_by_line(s)[k]),
    decreases s.len(),
{
    if s.len() == 0 {
    } else {
        let pre = s.drop_last();
        lemma_sort_by_line_sorted(pre);
        lemma_insert_by_line_sorted(sort_by_line(pre), s.last());
        let r = sort_by_line(s);
        assert(forall|k: int| 0 <= k < r.len() ==> s.contains(#[trigger] r[k])) by {
            assert(forall|k: int|
                #![trigger pre.contains(r[k])]
                0 <= k < r.len() && pre.contains(r[k]) ==> exists|j: int|
                    0 <= j < pre.len() && s[j] == r[k]);
            assert(s[s.len() - 1] == s.last());
        }
    }
}

/// Place one entry into an already sorted vector, after every entry whose
/// line does not exceed its own.
fn insert_entry(out: &mut Vec<OutlineEntry>, e: OutlineEntry)
    ensures
        entries_view(final(out)@) == insert_by_line(entries_view(old(out)@), e@),
    decreases old(out)@.len(),
{
    let ghost orig = out@;
    if out.len() == 0 {
        out.push(e);
        proof {
            assert(entries_view(out@) =~= seq![e@]);
        }
    } else if out[0].line <= e.line {
        let h = out.remove(0);
        proof {
            assert(out@ =~= orig.drop_first());
            assert(entries_view(orig).drop_first() =~= entries_view(orig.drop_first()));
        }
        insert_entry(out, e);
        let ghost mid = out@;
        out.insert(0, h);
        proof {
            assert(out@ =~= seq![h] + mid);
            assert(entries_view(seq![h] + mid) =~= seq![h@] + entries_view(mid));
            assert(h@ == entries_view(orig)[0]);
        }
    } else {
        out.insert(0, e);
        proof {
            assert(out@ =~= seq![e] + orig);
            assert(entries_view(seq![e] + orig) =~= seq![e@] + entries_view(orig));
        }
    }
}

/// Sort the collected outline entries by start line, stably.
pub(crate) fn sort_entries(entries: &mut Vec<OutlineEntry>)
    ensures
        entries_view(final(entries)@) == sort_by_line(entries_view(old(entries)@)),
{
    let ghost orig = entries@;
    let mut out: Vec<OutlineEntry> = Vec::new();
    let ghost mut k: int = 0;
    while entries.len() > 0
        invariant
            0 <= k <= orig.len(),
            entries@ == orig.skip(k),
            entries_view(out@) == sort_by_line(entries_view(orig.take(k))),
        decreases entries@.len(),
    {
        let e = entries.remove(0);
        proof {
            assert(entries@ =~= orig.skip(k + 1));
            assert(e == orig[k]);
        }
        insert_entry(&mut out, e);
        proof {
            let t1 = entries_view(orig.take(k + 1));
            assert(t1.drop_last() =~= entries_view(orig.take(k)));
            assert(t1.last() == orig[k]@);
            k = k + 1;
        }
    }
    proof {
        assert(orig.take(k) =~= orig);
    }
    let ghost sorted = out@;
    entries.append(&mut out);
    proof {
        assert(entries@ =~= sorted);
    }
}

} // verus!
