//! Plain text helpers: white-space classification, string equality,
//! white-space compaction and first-line extraction.

use vstd::prelude::*;
use vstd::string::StrSliceExecFns;
use vstd::string::StringExecFns;

verus! {

/// Relies on `String::push`: appends the given character to the end of the string.
pub assume_specification[ String::push ](s: &mut String, c: char)
    ensures
        final(s)@ == old(s)@.push(c),
;

/// The white-space characters, exactly the set that Rust's
/// `char::is_whitespace` recognises (the Unicode `White_Space` property).
pub open spec fn is_ws_char(c: char) -> bool {
    c == ' ' || c == '\t' || c == '\n' || c == '\r' || c == '\u{b}' || c == '\u{c}'
        || c == '\u{85}' || c == '\u{a0}' || c == '\u{1680}' || c == '\u{2000}' || c == '\u{2001}'
        || c == '\u{2002}' || c == '\u{2003}' || c == '\u{2004}' || c == '\u{2005}'
        || c == '\u{2006}' || c == '\u{2007}' || c == '\u{2008}' || c == '\u{2009}'
        || c == '\u{200a}' || c == '\u{2028}' || c == '\u{2029}' || c == '\u{202f}'
        || c == '\u{205f}' || c == '\u{3000}'
}

/// Executable check for [`is_ws_char`].
pub fn is_whitespace_char(c: char) -> (r: bool)
    ensures
        r == is_ws_char(c),
{
    c == ' ' || c == '\t' || c == '\n' || c == '\r' || c == '\u{b}' || c == '\u{c}'
        || c == '\u{85}' || c == '\u{a0}' || c == '\u{1680}' || c == '\u{2000}' || c == '\u{2001}'
        || c == '\u{2002}' || c == '\u{2003}' || c == '\u{2004}' || c == '\u{2005}'
        || c == '\u{2006}' || c == '\u{2007}' || c == '\u{2008}' || c == '\u{2009}'
        || c == '\u{200a}' || c == '\u{2028}' || c == '\u{2029}' || c == '\u{202f}'
        || c == '\u{205f}' || c == '\u{3000}'
}

/// Character-for-character equality of two string slices.
pub fn str_eq(a: &str, b: &str) -> (r: bool)
    ensures
        r == (a@ == b@),
{
    let na = a.unicode_len();
    let nb = b.unicode_len();
    if na != nb {
        return false;
    }
    let mut i: usize = 0;
    while i < na
        invariant
            i <= na,
            forall|j: int| 0 <= j < i ==> a@[j] == b@[j],
        decreases na - i,
    {
        if a.get_char(i) != b.get_char(i) {
            return false;
        }
        i = i + 1;
    }
    proof {
        assert(a@ =~= b@);
    }
    true
}

/// What remains of compacting `s` from position `i` on, given whether a word
/// has already been emitted (`started`) and whether a separating space is
/// still owed before the next word (`pending`).
pub open spec fn compact_from(s: Seq<char>, i: int, started: bool, pending: bool) -> Seq<char>
    decreases s.len() - i,
{
    if i < 0 || i >= s.len() {
        Seq::empty()
    } else if is_ws_char(s[i]) {
        compact_from(s, i + 1, started, started)
    } else {
        (if pending {
            seq![' ']
        } else {
            Seq::empty()
        }) + seq![s[i]] + compact_from(s, i + 1, true, false)
    }
}

/// `s` with every run of white space collapsed to a single space and with
/// leading and trailing white space removed.
pub open spec fn spec_compact_ws(s: Seq<char>) -> Seq<char> {
    compact_from(s, 0, false, false)
}

/// Collapse consecutive whitespace into single spaces.
pub fn compact_whitespace(text: &str) -> (r: String)
    ensures
        r@ == spec_compact_ws(text@),
{
    let n = text.unicode_len();
    let mut out = String::new();
    let mut started = false;
    let mut pending = false;
    let mut i: usize = 0;
    while i < n
        invariant
            i <= n,
            spec_compact_ws(text@) == out@ + compact_from(text@, i as int, started, pending),
        decreases n - i,
    {
        let c = text.get_char(i);
        if is_whitespace_char(c) {
            proof {
                assert(compact_from(text@, i as int, started, pending) == compact_from(
                    text@,
                    i + 1,
                    started,
                    started,
                ));
            }
            pending = started;
        } else {
            let ghost old_out = out@;
            if pending {
                out.push(' ');
            }
            out.push(c);
            proof {
                let rest = compact_from(text@, i + 1, true, false);
                if pending {
                    assert(old_out + (seq![' '] + seq![c] + rest) =~= out@ + rest);
                } else {
                    assert(old_out + (Seq::<char>::empty() + seq![c] + rest) =~= out@ + rest);
                }
            }
            started = true;
            pending = false;
        }
        i = i + 1;
    }
    proof {
        assert(spec_compact_ws(text@) =~= out@);
    }
    out
}

/// What remains of the trimmed first line of `s` from position `i` on:
/// characters up to the first newline, with leading and trailing white space
/// dropped; `hold` buffers white space seen since the last word.
pub open spec fn first_line_from(s: Seq<char>, i: int, started: bool, hold: Seq<char>) -> Seq<
    char,
>
    decreases s.len() - i,
{
    if i < 0 || i >= s.len() || s[i] == '\n' {
        Seq::empty()
    } else if is_ws_char(s[i]) {
        if started {
            first_line_from(s, i + 1, started, hold.push(s[i]))
        } else {
            first_line_from(s, i + 1, started, hold)
        }
    } else {
        hold + seq![s[i]] + first_line_from(s, i + 1, true, Seq::empty())
    }
}

/// The first line of `s` (up to the first newline), trimmed of leading and
/// trailing white space; inner white space is kept as it stands.
pub open spec fn spec_first_line(s: Seq<char>) -> Seq<char> {
    first_line_from(s, 0, false, Seq::empty())
}

/// The first line of `text`, trimmed.
pub fn first_line(text: &str) -> (r: String)
    ensures
        r@ == spec_first_line(text@),
{
    let n = text.unicode_len();
    let mut out = String::new();
    let mut hold = String::new();
    let mut started = false;
    let mut i: usize = 0;
    while i < n
        invariant
            i <= n,
            spec_first_line(text@) == out@ + first_line_from(text@, i as int, started, hold@),
            !started ==> hold@ == Seq::<char>::empty(),
        decreases n - i,
    {
        let c = text.get_char(i);
        if c == '\n' {
            proof {
                assert(spec_first_line(text@) =~= out@);
            }
            return out;
        }
        if is_whitespace_char(c) {
            if started {
                hold.push(c);
            }
        } else {
            let ghost old_out = out@;
            let ghost old_hold = hold@;
            out.append(hold.as_str());
            out.push(c);
            hold = String::new();
            proof {
                let rest = first_line_from(text@, i + 1, true, Seq::<char>::empty());
                assert(old_out + (old_hold + seq![c] + rest) =~= out@ + rest);
            }
            started = true;
        }
        i = i + 1;
    }
    proof {
        assert(spec_first_line(text@) =~= out@);
    }
    out
}

} // verus!
