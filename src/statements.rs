//! Cutting a stream of source lines into statements, and the expansion pass over them.

use vstd::prelude::*;
use crate::c_macro::{catalog_view, expand_all, expand_statement, string_views, CMacro, MacroModel};
use crate::text::{
    chars_of, find, find_char_from, find_from, lemma_find_from_found, replace_all, replace_all_seq,
    slice, string_of, trim, trim_seq, trim_start, trim_start_seq,
};

verus! {

/// `line` with each conditional-compilation marker put behind a `//HC ` comment marker.
pub open spec fn neutralize(line: Seq<char>) -> Seq<char> {
    let a = replace_all(line, "#ifdef "@, "//HC #ifdef "@);
    let b = replace_all(a, "#ifndef "@, "//HC #ifndef "@);
    let c = replace_all(b, "#if "@, "//HC #if "@);
    let d = replace_all(c, "#else "@, "//HC #else "@);
    replace_all(d, "#endif "@, "//HC #endif "@)
}

pub proof fn lemma_trim_start_shorter(s: Seq<char>)
    ensures
        trim_start(s).len() <= s.len(),
    decreases s.len(),
{
    if s.len() > 0 && crate::text::is_ws(s[0]) {
        lemma_trim_start_shorter(s.drop_first());
    }
}

#[via_fn]
proof fn drain_decreases(buf: Seq<char>) {
    if find(buf, seq![';']) is Some {
        lemma_find_from_found(buf, seq![';'], 0);
        let p = find(buf, seq![';'])->0;
        lemma_trim_start_shorter(buf.subrange(p + 1, buf.len() as int));
    }
}

/// The complete statements at the front of `buf`, each up to and including its `;`, and what
/// is left after the last of them; after each `;` leading whitespace is dropped.
pub open spec fn drain(buf: Seq<char>) -> (Seq<Seq<char>>, Seq<char>)
    decreases buf.len() via drain_decreases
{
    match find(buf, seq![';']) {
        None => (Seq::empty(), buf),
        Some(p) => {
            let rest = drain(trim_start(buf.subrange(p + 1, buf.len() as int)));
            (seq![buf.subrange(0, p + 1)] + rest.0, rest.1)
        },
    }
}

/// The statements completed by reading `lines` in order, and the text still pending.
pub open spec fn read_lines(lines: Seq<Seq<char>>) -> (Seq<Seq<char>>, Seq<char>)
    decreases lines.len(),
{
    if lines.len() == 0 {
        (Seq::empty(), Seq::empty())
    } else {
        let before = read_lines(lines.drop_last());
        let after = drain(before.1 + neutralize(lines.last()) + seq!['\n']);
        (before.0 + after.0, after.1)
    }
}

/// Pending text that is not all whitespace, taken as a last statement.
pub open spec fn last_statement(pending: Seq<char>) -> Option<Seq<char>> {
    if trim(pending).len() > 0 {
        Some(pending)
    } else {
        None
    }
}

/// All statements of `lines`, the unterminated tail included.
pub open spec fn statements_of(lines: Seq<Seq<char>>) -> Seq<Seq<char>> {
    let r = read_lines(lines);
    match last_statement(r.1) {
        Some(t) => r.0.push(t),
        None => r.0,
    }
}

/// The output lines of a whole pass: each statement of `lines` expanded by the catalog.
pub open spec fn expand_lines_spec(ms: Seq<MacroModel>, lines: Seq<Seq<char>>) -> Seq<
    Seq<char>,
> {
    statements_of(lines).map_values(|s: Seq<char>| expand_all(ms, s))
}

/// `line` with its conditional-compilation markers made inert.
pub fn neutralize_directives(line: &str) -> (r: String)
    ensures
        r@ == neutralize(line@),
{
    let s = chars_of(line);
    let a = replace_all_seq(&s, &chars_of("#ifdef "), &chars_of("//HC #ifdef "));
    let b = replace_all_seq(&a, &chars_of("#ifndef "), &chars_of("//HC #ifndef "));
    let c = replace_all_seq(&b, &chars_of("#if "), &chars_of("//HC #if "));
    let d = replace_all_seq(&c, &chars_of("#else "), &chars_of("//HC #else "));
    let e = replace_all_seq(&d, &chars_of("#endif "), &chars_of("//HC #endif "));
    string_of(&e)
}

/// Text read so far that does not yet end in a complete statement.
pub struct StatementBuffer {
    pending: Vec<char>,
}

impl View for StatementBuffer {
    type V = Seq<char>;

    closed spec fn view(&self) -> Seq<char> {
        self.pending@
    }
}

impl StatementBuffer {
    pub fn new() -> (r: StatementBuffer)
        ensures
            r@ == Seq::<char>::empty(),
    {
        StatementBuffer { pending: Vec::new() }
    }

    /// Takes one input line (without its line break): neutralizes its directives, appends it and
    /// a line break to the pending text, and hands out every statement now complete. A statement
    /// that spans several lines keeps its line breaks.
    pub fn push_line(&mut self, line: &str) -> (r: Vec<String>)
        ensures
            (string_views(r@), final(self)@) == drain(old(self)@ + neutralize(line@) + seq!['\n']),
    {
        let n = chars_of(neutralize_directives(line).as_str());
        let mut buf = crate::text::concat(&self.pending, &n);
        buf.push('\n');
        let ghost start = buf@;
        assert(buf@ =~= old(self)@ + neutralize(line@) + seq!['\n']);
        let mut out: Vec<String> = Vec::new();
        loop
            invariant
                start == old(self)@ + neutralize(line@) + seq!['\n'],
                string_views(out@) + drain(buf@).0 == drain(start).0,
                drain(buf@).1 == drain(start).1,
            decreases buf.len(),
        {
            match find_char_from(&buf, ';', 0) {
                None => {
                    assert(drain(buf@) == (Seq::<Seq<char>>::empty(), buf@));
                    assert(string_views(out@) + drain(buf@).0 =~= string_views(out@));
                    let ghost rest = buf@;
                    self.pending = buf;
                    assert(self@ == rest);
                    assert((string_views(out@), self@) == drain(start));
                    return out;
                },
                Some(p) => {
                    proof {
                        lemma_find_from_found(buf@, seq![';'], 0);
                    }
                    let stmt = slice(&buf, 0, p + 1);
                    let rest = slice(&buf, p + 1, buf.len());
                    let next = trim_start_seq(&rest);
                    proof {
                        lemma_trim_start_shorter(rest@);
                    }
                    let ghost before = out@;
                    out.push(string_of(&stmt));
                    assert(string_views(out@) =~= string_views(before).push(stmt@));
                    assert(string_views(out@) + drain(next@).0 =~= string_views(before) + drain(
                        buf@,
                    ).0);
                    buf = next;
                },
            }
        }
    }

    /// The pending text as a last statement, where it is not all whitespace.
    pub fn finish(&self) -> (r: Option<String>)
        ensures
            match r {
                Some(t) => last_statement(self@) == Some(t@),
                None => last_statement(self@) is None,
            },
    {
        let t = trim_seq(&self.pending);
        if t.len() > 0 {
            Some(string_of(&self.pending))
        } else {
            None
        }
    }
}

/// The whole expansion pass over the lines of a source text: one output entry per statement,
/// each statement expanded by the catalog. A statement that spans several input lines keeps its
/// line breaks, so its entry may itself hold several lines.
pub fn expand_lines(macros: &Vec<CMacro>, lines: &Vec<String>) -> (r: Vec<String>)
    ensures
        string_views(r@) == expand_lines_spec(catalog_view(macros@), string_views(lines@)),
{
    let mut sb = StatementBuffer::new();
    let mut stmts: Vec<String> = Vec::new();
    let mut i: usize = 0;
    while i < lines.len()
        invariant
            i <= lines.len(),
            (string_views(stmts@), sb@) == read_lines(string_views(lines@.subrange(0, i as int))),
        decreases lines.len() - i,
    {
        let ghost pre = string_views(lines@.subrange(0, i as int));
        assert(string_views(lines@.subrange(0, i + 1)).drop_last() =~= pre);
        let mut got = sb.push_line(lines[i].as_str());
        let ghost before = stmts@;
        let ghost taken = got@;
        stmts.append(&mut got);
        assert(string_views(stmts@) =~= string_views(before) + string_views(taken));
        i = i + 1;
    }
    assert(lines@.subrange(0, lines.len() as int) =~= lines@);
    if let Some(t) = sb.finish() {
        stmts.push(t);
    }
    let ghost all = statements_of(string_views(lines@));
    assert(string_views(stmts@) =~= all);
    let mut r: Vec<String> = Vec::new();
    let mut j: usize = 0;
    while j < stmts.len()
        invariant
            j <= stmts.len(),
            r.len() == j,
            string_views(stmts@) == all,
            forall|x: int|
                0 <= x < j ==> #[trigger] r@[x]@ == expand_all(catalog_view(macros@), all[x]),
        decreases stmts.len() - j,
    {
        r.push(expand_statement(macros, stmts[j].as_str()));
        j = j + 1;
    }
    assert(string_views(r@) =~= expand_lines_spec(catalog_view(macros@), string_views(lines@)));
    r
}

} // verus!
