//! Macro records and their expansion within one statement.

use vstd::prelude::*;
use crate::Error;
use crate::text::{
    chars_of, concat, ends_with, matches_at, squeeze_ws, squeeze_ws_seq, starts_with, contains, find, find_char_from, find_from, find_from_at, lemma_find_from_first, lemma_find_from_found, occurs_at,
    replace_all, replace_all_seq, slice, split_on, split_on_char, string_of, trim, trim_seq, views,
};

verus! {

/// One macro definition: `params` is `None` for an object-like macro and `Some` (possibly
/// empty) for a function-like one.
#[derive(Clone, Debug)]
pub struct CMacro {
    pub name: String,
    pub params: Option<Vec<String>>,
    pub content: String,
}

/// The mathematical content of a `CMacro`.
pub struct MacroModel {
    pub name: Seq<char>,
    pub params: Option<Seq<Seq<char>>>,
    pub body: Seq<char>,
}

pub open spec fn string_views(v: Seq<String>) -> Seq<Seq<char>> {
    v.map_values(|x: String| x@)
}

impl View for CMacro {
    type V = MacroModel;

    open spec fn view(&self) -> MacroModel {
        MacroModel {
            name: self.name@,
            params: match self.params {
                Some(v) => Some(string_views(v@)),
                None => None,
            },
            body: self.content@,
        }
    }
}

/// The models of a catalog's records, in catalog order.
pub open spec fn catalog_view(ms: Seq<CMacro>) -> Seq<MacroModel> {
    ms.map_values(|m: CMacro| m@)
}

/// The arguments written between the parentheses of a call: split on commas, each trimmed.
pub open spec fn call_args(t: Seq<char>) -> Seq<Seq<char>> {
    split_on(t, ',').map_values(|x: Seq<char>| trim(x))
}

/// `body` with the first `n` parameters replaced, one after the other, by their arguments.
pub open spec fn substitute_upto(
    body: Seq<char>,
    params: Seq<Seq<char>>,
    args: Seq<Seq<char>>,
    n: nat,
) -> Seq<char>
    decreases n,
{
    if n == 0 {
        body
    } else {
        replace_all(
            substitute_upto(body, params, args, (n - 1) as nat),
            params[n - 1],
            args[n - 1],
        )
    }
}

/// `body` with every parameter replaced by the argument at its position.
pub open spec fn substitute(body: Seq<char>, params: Seq<Seq<char>>, args: Seq<Seq<char>>) -> Seq<
    char,
> {
    substitute_upto(body, params, args, params.len())
}

/// Expansion of the first call of a function-like macro in `s`, whose name starts at `start`:
/// the span from the name to the first `)` after the first `(` gives way to the substituted
/// body when the argument count matches; otherwise `s` stays as it is.
pub open spec fn expand_call(
    s: Seq<char>,
    start: int,
    params: Seq<Seq<char>>,
    body: Seq<char>,
) -> Seq<char> {
    match find_from(s, seq!['('], start) {
        None => s,
        Some(open) => match find_from(s, seq![')'], open + 1) {
            None => s,
            Some(close) => {
                let args = call_args(s.subrange(open + 1, close));
                if args.len() == params.len() {
                    s.subrange(0, start) + substitute(body, params, args) + s.subrange(
                        close + 1,
                        s.len() as int,
                    )
                } else {
                    s
                }
            },
        },
    }
}

/// One macro applied to one statement.
pub open spec fn expand_macro(m: MacroModel, s: Seq<char>) -> Seq<char> {
    match find(s, m.name) {
        None => s,
        Some(start) => match m.params {
            None => replace_all(s, m.name, m.body),
            Some(ps) => expand_call(s, start, ps, m.body),
        },
    }
}

/// A catalog applied to one statement: each macro in order, on what the ones before it left.
pub open spec fn expand_all(ms: Seq<MacroModel>, s: Seq<char>) -> Seq<char>
    decreases ms.len(),
{
    if ms.len() == 0 {
        s
    } else {
        expand_macro(ms.last(), expand_all(ms.drop_last(), s))
    }
}

fn strings_to_chars(v: &Vec<String>) -> (r: Vec<Vec<char>>)
    ensures
        r.len() == v.len(),
        views(r@) == string_views(v@),
{
    let mut r: Vec<Vec<char>> = Vec::new();
    let mut i: usize = 0;
    while i < v.len()
        invariant
            i <= v.len(),
            r.len() == i,
            forall|j: int| 0 <= j < i ==> #[trigger] r@[j]@ == v@[j]@,
        decreases v.len() - i,
    {
        r.push(chars_of(v[i].as_str()));
        i = i + 1;
    }
    assert(views(r@) =~= string_views(v@));
    r
}

fn trim_all(v: &Vec<Vec<char>>) -> (r: Vec<Vec<char>>)
    ensures
        r.len() == v.len(),
        views(r@) == views(v@).map_values(|x: Seq<char>| trim(x)),
{
    let mut r: Vec<Vec<char>> = Vec::new();
    let mut i: usize = 0;
    while i < v.len()
        invariant
            i <= v.len(),
            r.len() == i,
            forall|j: int| 0 <= j < i ==> #[trigger] r@[j]@ == trim(v@[j]@),
        decreases v.len() - i,
    {
        r.push(trim_seq(&v[i]));
        i = i + 1;
    }
    assert(views(r@) =~= views(v@).map_values(|x: Seq<char>| trim(x)));
    r
}

fn substitute_seq(body: &Vec<char>, params: &Vec<Vec<char>>, args: &Vec<Vec<char>>) -> (r: Vec<
    char,
>)
    requires
        params.len() == args.len(),
    ensures
        r@ == substitute(body@, views(params@), views(args@)),
{
    let mut r = body.clone();
    let mut i: usize = 0;
    while i < params.len()
        invariant
            params.len() == args.len(),
            i <= params.len(),
            r@ == substitute_upto(body@, views(params@), views(args@), i as nat),
        decreases params.len() - i,
    {
        r = replace_all_seq(&r, &params[i], &args[i]);
        i = i + 1;
    }
    r
}

/// One macro applied to a statement held as characters.
fn expand_chars(m: &CMacro, s: &Vec<char>) -> (r: Vec<char>)
    ensures
        r@ == expand_macro(m@, s@),
{
    let name = chars_of(m.name.as_str());
    let start = match find_from_at(s, &name, 0) {
        None => return s.clone(),
        Some(start) => start,
    };
    match &m.params {
        None => {
            let body = chars_of(m.content.as_str());
            replace_all_seq(s, &name, &body)
        },
        Some(ps) => {
            let open = match find_char_from(s, '(', start) {
                None => return s.clone(),
                Some(open) => open,
            };
            proof {
                lemma_find_from_found(s@, seq!['('], start as int);
                assert(seq!['('].len() == 1);
                assert(open < s.len());
            }
            let close = match find_char_from(s, ')', open + 1) {
                None => return s.clone(),
                Some(close) => close,
            };
            proof {
                lemma_find_from_found(s@, seq![')'], open + 1);
            }
            let inner = slice(s, open + 1, close);
            let pieces = split_on_char(&inner, ',');
            let args = trim_all(&pieces);
            assert(views(args@) =~= call_args(s@.subrange(open + 1, close as int)));
            if args.len() == ps.len() {
                let params = strings_to_chars(ps);
                let body = chars_of(m.content.as_str());
                let sub = substitute_seq(&body, &params, &args);
                let head = slice(s, 0, start);
                let tail = slice(s, close + 1, s.len());
                let hs = concat(&head, &sub);
                concat(&hs, &tail)
            } else {
                s.clone()
            }
        },
    }
}

/// Applies one macro to one statement.
///
/// The statement is left alone unless it contains the macro's name. An object-like macro then
/// has every occurrence of its name replaced by its body. A function-like macro has its first
/// call expanded: from the name to the first `)` after the first `(` following it, provided the
/// comma-separated arguments between those parentheses are as many as its parameters; each
/// parameter in the body is replaced by its trimmed argument, in parameter order.
pub fn expand_c_macro(macro_def: &CMacro, input_statement: &str) -> (r: String)
    ensures
        r@ == expand_macro(macro_def@, input_statement@),
        !contains(input_statement@, macro_def@.name) ==> r@ == input_statement@,
        macro_def@.params is None && contains(input_statement@, macro_def@.name) ==> r@
            == replace_all(input_statement@, macro_def@.name, macro_def@.body),
{
    let s = chars_of(input_statement);
    let r = expand_chars(macro_def, &s);
    string_of(&r)
}

/// Applies every macro of the catalog to one statement, in catalog order, each to the result
/// of the ones before it; a single pass.
pub fn expand_statement(macros: &Vec<CMacro>, statement: &str) -> (r: String)
    ensures
        r@ == expand_all(catalog_view(macros@), statement@),
{
    let mut cur = chars_of(statement);
    let mut i: usize = 0;
    while i < macros.len()
        invariant
            i <= macros.len(),
            cur@ == expand_all(catalog_view(macros@.subrange(0, i as int)), statement@),
        decreases macros.len() - i,
    {
        let ghost pre = catalog_view(macros@.subrange(0, i as int));
        let ghost next = catalog_view(macros@.subrange(0, i + 1));
        assert(next.drop_last() =~= pre);
        cur = expand_chars(&macros[i], &cur);
        i = i + 1;
    }
    assert(macros@.subrange(0, macros.len() as int) =~= macros@);
    string_of(&cur)
}

/// The shape of a definition: name, the text between the first parentheses, and the body.
pub const DEFINE_PATTERN: &'static str = r"#define\s*(\w+)\s*\((.*?)\)\s*([\s\S]*)";

/// The capture groups of the leftmost match of `pattern` in `text`, each `None` where the group
/// took no part; `None` as a whole where there is no match.
pub uninterp spec fn regex_captures(pattern: Seq<char>, text: Seq<char>) -> Option<
    Seq<Option<Seq<char>>>,
>;

/// Whether `pattern` compiles as a regular expression under the default limits.
pub uninterp spec fn regex_compiles(pattern: Seq<char>) -> bool;

pub open spec fn groups_view(g: Seq<Option<String>>) -> Seq<Option<Seq<char>>> {
    g.map_values(
        |o: Option<String>|
            match o {
                Some(x) => Some(x@),
                None => None,
            },
    )
}

pub open spec fn captures_view(c: Option<Vec<Option<String>>>) -> Option<Seq<Option<Seq<char>>>> {
    match c {
        Some(g) => Some(groups_view(g@)),
        None => None,
    }
}

/// Relies on `regex::Regex::new`, which compiles `pattern` or returns an error (handed on as its
/// message), and on
/// `Regex::captures` with `Captures::iter`, which give the groups of the leftmost match in
/// `text`; the groups depend on the pattern and the text alone.
#[verifier::external_body]
fn find_captures(pattern: &str, text: &str) -> (r: Result<
    Option<Vec<Option<String>>>,
    String,
>)
    ensures
        r is Ok <==> regex_compiles(pattern@),
        r is Ok ==> captures_view(r->Ok_0) == regex_captures(pattern@, text@),
{
    let re = regex::Regex::new(pattern).map_err(|e| e.to_string())?;
    Ok(re.captures(text).map(|c| c.iter().map(|m| m.map(|m| m.as_str().to_string())).collect()))
}

/// The text of group `i`, empty where the group is missing.
pub open spec fn group(g: Seq<Option<Seq<char>>>, i: int) -> Seq<char> {
    if 0 <= i < g.len() && g[i] is Some {
        g[i]->0
    } else {
        Seq::empty()
    }
}

/// The trimmed pieces of `pieces` that are not empty, in order.
pub open spec fn nonempty_trimmed(pieces: Seq<Seq<char>>) -> Seq<Seq<char>>
    decreases pieces.len(),
{
    if pieces.len() == 0 {
        Seq::empty()
    } else {
        let init = nonempty_trimmed(pieces.drop_last());
        let t = trim(pieces.last());
        if t.len() == 0 {
            init
        } else {
            init.push(t)
        }
    }
}

/// The parameter names of a parameter list: split on commas, trimmed, empty ones dropped.
pub open spec fn param_list(p: Seq<char>) -> Seq<Seq<char>> {
    nonempty_trimmed(split_on(p, ','))
}

pub open spec fn do_open() -> Seq<char> {
    seq!['d', 'o', '{']
}

pub open spec fn do_close() -> Seq<char> {
    seq!['}', ' ', 'w', 'h', 'i', 'l', 'e', '(', '0', ')']
}

/// `c` without a surrounding `do{ ... } while(0)`, re-trimmed; other text as it is.
pub open spec fn strip_do_while(c: Seq<char>) -> Seq<char> {
    if starts_with(c, do_open()) && ends_with(c, do_close()) {
        trim(c.subrange(3, c.len() - 10))
    } else {
        c
    }
}

/// A macro body as stored: trimmed, whitespace runs collapsed, `do{ ... } while(0)` removed.
pub open spec fn normalize_body(b: Seq<char>) -> Seq<char> {
    strip_do_while(squeeze_ws(trim(b)))
}

/// The record that a definition's name, parameter list and body text give.
pub open spec fn record_of_parts(name: Seq<char>, params: Seq<char>, body: Seq<char>) -> MacroModel {
    MacroModel { name, params: Some(param_list(params)), body: normalize_body(body) }
}

/// The record that the capture groups of a matched definition give.
pub open spec fn record_of_groups(g: Seq<Option<Seq<char>>>) -> MacroModel {
    record_of_parts(group(g, 1), group(g, 2), group(g, 3))
}

fn param_names(p: &Vec<char>) -> (r: Vec<String>)
    ensures
        string_views(r@) == param_list(p@),
{
    let pieces = split_on_char(p, ',');
    let mut r: Vec<String> = Vec::new();
    let mut i: usize = 0;
    assert(views(pieces@).subrange(0, 0) =~= Seq::<Seq<char>>::empty());
    assert(string_views(r@) =~= Seq::<Seq<char>>::empty());
    while i < pieces.len()
        invariant
            i <= pieces.len(),
            string_views(r@) == nonempty_trimmed(views(pieces@).subrange(0, i as int)),
        decreases pieces.len() - i,
    {
        let ghost pre = views(pieces@).subrange(0, i as int);
        assert(views(pieces@).subrange(0, i + 1).drop_last() =~= pre);
        let t = trim_seq(&pieces[i]);
        if t.len() > 0 {
            let ghost before = r@;
            r.push(string_of(&t));
            assert(string_views(r@) =~= string_views(before).push(t@));
        }
        i = i + 1;
    }
    assert(views(pieces@).subrange(0, pieces.len() as int) =~= views(pieces@));
    r
}

fn normalize(b: &Vec<char>) -> (r: Vec<char>)
    ensures
        r@ == normalize_body(b@),
{
    let t = trim_seq(b);
    let c = squeeze_ws_seq(&t);
    let open: Vec<char> = vec!['d', 'o', '{'];
    let close: Vec<char> = vec!['}', ' ', 'w', 'h', 'i', 'l', 'e', '(', '0', ')'];
    assert(open@ =~= do_open());
    assert(close@ =~= do_close());
    if c.len() >= 10 && matches_at(&c, &open, 0) && matches_at(&c, &close, c.len() - 10) {
        proof {
            if c.len() < 13 {
                assert(c@[2] == '{');
                assert(c@.subrange(c.len() - 10, c.len() as int)[0] == '}');
                assert(c@[c.len() - 10] == '}');
            }
        }
        let inner = slice(&c, 3, c.len() - 10);
        trim_seq(&inner)
    } else {
        c
    }
}

/// Builds a function-like record from a definition's name, the text of its parameter list and
/// its body text.
pub fn cmacro_from_parts(name: &str, params: &str, body: &str) -> (r: CMacro)
    ensures
        r@ == record_of_parts(name@, params@, body@),
{
    let p = chars_of(params);
    let b = chars_of(body);
    let names = param_names(&p);
    let content = string_of(&normalize(&b));
    CMacro { name: name.to_string(), params: Some(names), content }
}

fn group_text(g: &Vec<Option<String>>, i: usize) -> (r: String)
    ensures
        r@ == group(groups_view(g@), i as int),
{
    if i < g.len() {
        match &g[i] {
            Some(x) => x.clone(),
            None => String::new(),
        }
    } else {
        String::new()
    }
}

/// Parses each definition of the form `#define NAME(params) body` into a record, in order.
///
/// The whole conversion fails on the first definition that does not have that shape, and
/// succeeds when the pattern compiles and every definition has it.
pub fn convert_string_to_cmacro(macros: Vec<String>) -> (r: Result<Vec<CMacro>, Error>)
    ensures
        match r {
            Ok(v) => v.len() == macros.len() && forall|i: int|
                0 <= i < macros.len() ==> {
                    &&& #[trigger] regex_captures(DEFINE_PATTERN@, macros@[i]@) is Some
                    &&& v@[i]@ == record_of_groups(regex_captures(DEFINE_PATTERN@, macros@[i]@)->0)
                },
            Err(Error::InvalidMacro(s)) => regex_compiles(DEFINE_PATTERN@) && exists|i: int|
                0 <= i < macros.len() && #[trigger] regex_captures(DEFINE_PATTERN@, macros@[i]@)
                    is None && s@ == macros@[i]@ && forall|j: int|
                    0 <= j < i ==> #[trigger] regex_captures(DEFINE_PATTERN@, macros@[j]@) is Some,
            Err(Error::InvalidPattern(_)) => !regex_compiles(DEFINE_PATTERN@),
            Err(_) => false,
        },
{
    let mut v: Vec<CMacro> = Vec::new();
    let mut i: usize = 0;
    while i < macros.len()
        invariant
            i <= macros.len(),
            v.len() == i,
            forall|j: int|
                0 <= j < i ==> {
                    &&& #[trigger] regex_captures(DEFINE_PATTERN@, macros@[j]@) is Some
                    &&& v@[j]@ == record_of_groups(regex_captures(DEFINE_PATTERN@, macros@[j]@)->0)
                },
        decreases macros.len() - i,
    {
        match find_captures(DEFINE_PATTERN, macros[i].as_str()) {
            Err(e) => return Err(Error::InvalidPattern(e)),
            Ok(None) => return Err(Error::InvalidMacro(macros[i].clone())),
            Ok(Some(g)) => {
                let name = group_text(&g, 1);
                let params = group_text(&g, 2);
                let body = group_text(&g, 3);
                let m = cmacro_from_parts(name.as_str(), params.as_str(), body.as_str());
                v.push(m);
            },
        }
        i = i + 1;
    }
    Ok(v)
}

proof fn lemma_char_occurs(s: Seq<char>, c: char, k: int)
    requires
        0 <= k < s.len(),
    ensures
        occurs_at(s, seq![c], k) <==> s[k] == c,
{
    if occurs_at(s, seq![c], k) {
        assert(s.subrange(k, k + 1)[0] == s[k]);
    }
    if s[k] == c {
        assert(s.subrange(k, k + 1) =~= seq![c]);
    }
}

/// The call `pre + NAME(args) + post`, split into the indices that the expansion works from.
proof fn lemma_call_site(m: MacroModel, pre: Seq<char>, args: Seq<char>, post: Seq<char>)
    requires
        !m.name.contains('('),
        !args.contains(')'),
    ensures
        ({
            let s = pre + m.name + seq!['('] + args + seq![')'] + post;
            let open = pre.len() + m.name.len() as int;
            let close = open + 1 + args.len() as int;
            &&& find_from(s, seq!['('], pre.len() as int) == Some(open)
            &&& find_from(s, seq![')'], open + 1) == Some(close)
            &&& s.subrange(open + 1, close) == args
            &&& s.subrange(0, pre.len() as int) == pre
            &&& s.subrange(close + 1, s.len() as int) == post
        }),
{
    let s = pre + m.name + seq!['('] + args + seq![')'] + post;
    let start = pre.len() as int;
    let open = pre.len() + m.name.len() as int;
    let close = open + 1 + args.len() as int;
    assert(s[open] == '(');
    lemma_char_occurs(s, '(', open);
    assert forall|k: int| start <= k < open implies !occurs_at(s, seq!['('], k) by {
        assert(s[k] == m.name[k - start]);
        lemma_char_occurs(s, '(', k);
    }
    lemma_find_from_first(s, seq!['('], start, open);
    assert(s[close] == ')');
    lemma_char_occurs(s, ')', close);
    assert forall|k: int| open + 1 <= k < close implies !occurs_at(s, seq![')'], k) by {
        assert(s[k] == args[k - open - 1]);
        lemma_char_occurs(s, ')', k);
    }
    lemma_find_from_first(s, seq![')'], open + 1, close);
    assert(s.subrange(open + 1, close) =~= args);
    assert(s.subrange(0, start) =~= pre);
    assert(s.subrange(close + 1, s.len() as int) =~= post);
}

/// A function-like macro whose first occurrence in a statement is a call `NAME(a1, ..., an)`
/// with as many arguments as parameters: the call, from the name through the `)`, is replaced
/// by the body in which each parameter is replaced by its trimmed argument, and the text around
/// the call stays as it was.
pub proof fn lemma_call_expands(m: MacroModel, pre: Seq<char>, args: Seq<char>, post: Seq<char>)
    requires
        m.params is Some,
        !m.name.contains('('),
        !args.contains(')'),
        find(pre + m.name + seq!['('] + args + seq![')'] + post, m.name) == Some(pre.len() as int),
        call_args(args).len() == m.params->0.len(),
    ensures
        expand_macro(m, pre + m.name + seq!['('] + args + seq![')'] + post) == pre + substitute(
            m.body,
            m.params->0,
            call_args(args),
        ) + post,
{
    lemma_call_site(m, pre, args, post);
}

/// A function-like macro whose first occurrence in a statement is a call `NAME(a1, ..., ak)`
/// with a number of arguments other than its number of parameters leaves the statement as it
/// is.
pub proof fn lemma_call_count_mismatch(
    m: MacroModel,
    pre: Seq<char>,
    args: Seq<char>,
    post: Seq<char>,
)
    requires
        m.params is Some,
        !m.name.contains('('),
        !args.contains(')'),
        find(pre + m.name + seq!['('] + args + seq![')'] + post, m.name) == Some(pre.len() as int),
        call_args(args).len() != m.params->0.len(),
    ensures
        expand_macro(m, pre + m.name + seq!['('] + args + seq![')'] + post) == pre + m.name
            + seq!['('] + args + seq![')'] + post,
{
    lemma_call_site(m, pre, args, post);
}

} // verus!
