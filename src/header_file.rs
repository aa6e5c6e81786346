//! Gathering `#define` lines from header text, continuation lines joined.

use vstd::prelude::*;
use crate::c_macro::string_views;
use crate::text::{
    chars_of, concat, ends_with, matches_at, replace_all, replace_all_seq, slice, starts_with, string_of,
    trim, trim_seq,
};

verus! {

/// Where the scan stands: the definitions found, whether a continued definition is open, and
/// the text gathered for it.
pub struct ScanState {
    pub found: Seq<Seq<char>>,
    pub open: bool,
    pub current: Seq<char>,
}

/// One trimmed line read: a definition line starting with `prefix` opens a definition, or is one
/// as it stands when it does not end in a backslash; while one is open, each line is appended to
/// it, and the first that does not end in a backslash closes it. Other lines are passed over.
/// With `cut`, a line that ends in a backslash enters the definition without that backslash.
pub open spec fn scan_step(st: ScanState, prefix: Seq<char>, cut: bool, line: Seq<char>) -> ScanState {
    let t = trim(line);
    let starts = starts_with(t, prefix);
    let continued = ends_with(t, "\\"@);
    let piece = if cut && continued {
        t.drop_last()
    } else {
        t
    };
    if starts && !st.open && continued {
        ScanState { found: st.found, open: true, current: piece }
    } else if starts && !st.open {
        ScanState { found: st.found.push(t), open: false, current: Seq::empty() }
    } else if !starts && st.open && continued {
        ScanState { found: st.found, open: true, current: st.current + piece }
    } else if !starts && st.open {
        ScanState { found: st.found.push(st.current + t), open: false, current: Seq::empty() }
    } else {
        st
    }
}

/// The scan over `lines` in order, from nothing found and nothing open.
pub open spec fn scan(lines: Seq<Seq<char>>, prefix: Seq<char>, cut: bool) -> ScanState
    decreases lines.len(),
{
    if lines.len() == 0 {
        ScanState { found: Seq::empty(), open: false, current: Seq::empty() }
    } else {
        scan_step(scan(lines.drop_last(), prefix, cut), prefix, cut, lines.last())
    }
}

/// The definitions gathered from `lines`, continuation backslashes kept, then each with every
/// `marker` removed.
pub open spec fn definitions(lines: Seq<Seq<char>>, prefix: Seq<char>, marker: Seq<char>) -> Seq<
    Seq<char>,
> {
    scan(lines, prefix, false).found.map_values(|d: Seq<char>| replace_all(d, marker, Seq::empty()))
}

/// The definitions gathered from `lines`, each continued line without its final backslash.
pub open spec fn joined_definitions(lines: Seq<Seq<char>>, prefix: Seq<char>) -> Seq<Seq<char>> {
    scan(lines, prefix, true).found
}

fn scan_lines(lines: &Vec<String>, prefix: &str, cut: bool) -> (r: Vec<Vec<char>>)
    ensures
        crate::text::views(r@) == scan(string_views(lines@), prefix@, cut).found,
{
    let pre = chars_of(prefix);
    let backslash: Vec<char> = vec!['\\'];
    proof {
        reveal_strlit("\\");
    }
    assert(backslash@ =~= "\\"@);
    let mut found: Vec<Vec<char>> = Vec::new();
    let mut open = false;
    let mut current: Vec<char> = Vec::new();
    let mut i: usize = 0;
    assert(string_views(lines@.subrange(0, 0)) =~= Seq::<Seq<char>>::empty());
    assert(crate::text::views(found@) =~= Seq::<Seq<char>>::empty());
    assert(current@ =~= Seq::<char>::empty());
    while i < lines.len()
        invariant
            i <= lines.len(),
            backslash@ == "\\"@,
            backslash@ == seq!['\\'],
            !open ==> current@ == Seq::<char>::empty(),
            pre@ == prefix@,
            scan(string_views(lines@.subrange(0, i as int)), prefix@, cut) == (ScanState {
                found: crate::text::views(found@),
                open,
                current: current@,
            }),
        decreases lines.len() - i,
    {
        let ghost pre_lines = string_views(lines@.subrange(0, i as int));
        assert(string_views(lines@.subrange(0, i + 1)).drop_last() =~= pre_lines);
        assert(string_views(lines@.subrange(0, i + 1)).last() == lines@[i as int]@);
        let t = trim_seq(&chars_of(lines[i].as_str()));
        let starts = matches_at(&t, &pre, 0);
        let continued = t.len() >= 1 && matches_at(&t, &backslash, t.len() - 1);
        assert(starts == starts_with(t@, prefix@));
        assert(continued == ends_with(t@, "\\"@));
        let ghost before = found@;
        let ghost st = ScanState { found: crate::text::views(found@), open, current: current@ };
        let ghost nx = scan_step(st, prefix@, cut, lines@[i as int]@);
        let piece = if cut && continued {
            slice(&t, 0, t.len() - 1)
        } else {
            t.clone()
        };
        assert(piece@ =~= (if cut && continued {
            t@.drop_last()
        } else {
            t@
        }));
        if starts && !open && continued {
            open = true;
            current = piece;
        } else if starts && !open {
            found.push(t);
            assert(crate::text::views(found@) =~= crate::text::views(before).push(t@));
        } else if !starts && open && continued {
            current = concat(&current, &piece);
        } else if !starts && open {
            let d = concat(&current, &t);
            found.push(d);
            assert(crate::text::views(found@) =~= crate::text::views(before).push(d@));
            open = false;
            current = Vec::new();
        }
        assert(current@ =~= nx.current);
        assert(crate::text::views(found@) =~= nx.found);
        assert(open == nx.open);
        i = i + 1;
    }
    assert(lines@.subrange(0, lines.len() as int) =~= lines@);
    found
}

/// Gathers the definitions that start with `prefix`, continuation backslashes kept, each with
/// every `marker` removed.
pub fn collect_definitions(lines: &Vec<String>, prefix: &str, marker: &str) -> (r: Vec<String>)
    ensures
        string_views(r@) == definitions(string_views(lines@), prefix@, marker@),
{
    let found = scan_lines(lines, prefix, false);
    let m = chars_of(marker);
    let empty: Vec<char> = Vec::new();
    let mut r: Vec<String> = Vec::new();
    let mut j: usize = 0;
    while j < found.len()
        invariant
            j <= found.len(),
            r.len() == j,
            m@ == marker@,
            empty@ == Seq::<char>::empty(),
            forall|x: int|
                0 <= x < j ==> #[trigger] r@[x]@ == replace_all(found@[x]@, marker@, Seq::empty()),
        decreases found.len() - j,
    {
        r.push(string_of(&replace_all_seq(&found[j], &m, &empty)));
        j = j + 1;
    }
    assert(string_views(r@) =~= definitions(string_views(lines@), prefix@, marker@));
    r
}

/// The `#define` lines of a header: one that does not end in a backslash as it stands (trimmed);
/// a continued one joined with the lines that follow it, each continued line without its final
/// backslash. Every other backslash is kept.
pub fn get_macros(lines: &Vec<String>) -> (r: Vec<String>)
    ensures
        string_views(r@) == joined_definitions(string_views(lines@), "#define"@),
{
    let found = scan_lines(lines, "#define", true);
    let mut r: Vec<String> = Vec::new();
    let mut j: usize = 0;
    while j < found.len()
        invariant
            j <= found.len(),
            r.len() == j,
            forall|x: int| 0 <= x < j ==> #[trigger] r@[x]@ == found@[x]@,
        decreases found.len() - j,
    {
        r.push(string_of(&found[j]));
        j = j + 1;
    }
    assert(string_views(r@) =~= crate::text::views(found@));
    r
}

} // verus!
