//! The text that lies before each top-level function definition of a C source.

use vstd::prelude::*;
use vstd::string::StringSliceAdditionalSpecFns;
use crate::text::{chars_of, matches_at};
use crate::Error;

verus! {

/// A top-level node of a syntax tree: its grammar kind and the bytes it covers.
pub struct TopNode {
    pub kind: String,
    pub start: usize,
    pub end: usize,
}

/// The mathematical content of a `TopNode`.
pub struct NodeModel {
    pub kind: Seq<char>,
    pub start: int,
    pub end: int,
}

impl View for TopNode {
    type V = NodeModel;

    open spec fn view(&self) -> NodeModel {
        NodeModel { kind: self.kind@, start: self.start as int, end: self.end as int }
    }
}

pub open spec fn function_kind() -> Seq<char> {
    "function_definition"@
}

/// The text gathered from `nodes` in order, and where the next piece starts: the bytes from the
/// end of the last function definition (or the start) up to each function definition are kept.
/// `None` where a function definition starts before that point or past the end of `src`.
pub open spec fn gather(src: Seq<u8>, nodes: Seq<NodeModel>) -> Option<(Seq<u8>, int)>
    decreases nodes.len(),
{
    if nodes.len() == 0 {
        Some((Seq::empty(), 0))
    } else {
        match gather(src, nodes.drop_last()) {
            None => None,
            Some(st) => {
                let n = nodes.last();
                if n.kind != function_kind() {
                    Some(st)
                } else if st.1 <= n.start <= src.len() {
                    Some((st.0 + src.subrange(st.1, n.start), n.end))
                } else {
                    None
                }
            },
        }
    }
}

/// The bytes before each function definition among `nodes`.
pub open spec fn text_before_functions_spec(src: Seq<u8>, nodes: Seq<NodeModel>) -> Option<Seq<u8>> {
    match gather(src, nodes) {
        Some(st) => Some(st.0),
        None => None,
    }
}

pub open spec fn node_views(v: Seq<TopNode>) -> Seq<NodeModel> {
    v.map_values(|n: TopNode| n@)
}

proof fn lemma_gather_fails_on(src: Seq<u8>, nodes: Seq<NodeModel>, k: int)
    requires
        0 <= k <= nodes.len(),
        gather(src, nodes.subrange(0, k)) is None,
    ensures
        gather(src, nodes) is None,
    decreases nodes.len() - k,
{
    if k == nodes.len() {
        assert(nodes.subrange(0, k) =~= nodes);
    } else {
        assert(nodes.subrange(0, k + 1).drop_last() =~= nodes.subrange(0, k));
        lemma_gather_fails_on(src, nodes, k + 1);
    }
}

fn same_text(a: &str, b: &str) -> (r: bool)
    ensures
        r == (a@ == b@),
{
    let x = chars_of(a);
    let y = chars_of(b);
    if x.len() != y.len() {
        return false;
    }
    let r = matches_at(&x, &y, 0);
    assert(x@.subrange(0, y@.len() as int) =~= x@);
    r
}

/// Keeps, in order, the bytes of `src` from the end of the previous function definition (or the
/// start) up to each top-level function definition; the rest is dropped. `None` where a function
/// definition starts before that point or past the end of `src`.
pub fn text_before_functions(src: &[u8], nodes: &Vec<TopNode>) -> (r: Option<Vec<u8>>)
    ensures
        match r {
            Some(v) => text_before_functions_spec(src@, node_views(nodes@)) == Some(v@),
            None => text_before_functions_spec(src@, node_views(nodes@)) is None,
        },
{
    let mut out: Vec<u8> = Vec::new();
    let mut last: usize = 0;
    let mut i: usize = 0;
    assert(node_views(nodes@).subrange(0, 0) =~= Seq::<NodeModel>::empty());
    while i < nodes.len()
        invariant
            i <= nodes.len(),
            gather(src@, node_views(nodes@).subrange(0, i as int)) == Some((out@, last as int)),
        decreases nodes.len() - i,
    {
        assert(node_views(nodes@).subrange(0, i + 1).drop_last() =~= node_views(nodes@).subrange(
            0,
            i as int,
        ));
        let n = &nodes[i];
        if same_text(n.kind.as_str(), "function_definition") {
            if last > n.start || n.start > src.len() {
                proof {
                    lemma_gather_fails_on(src@, node_views(nodes@), i + 1);
                }
                return None;
            }
            let mut k: usize = last;
            let ghost before = out@;
            while k < n.start
                invariant
                    last <= k <= n.start <= src.len(),
                    out@ == before + src@.subrange(last as int, k as int),
                decreases n.start - k,
            {
                out.push(src[k]);
                k = k + 1;
                assert(out@ =~= before + src@.subrange(last as int, k as int));
            }
            last = n.end;
        }
        i = i + 1;
    }
    assert(node_views(nodes@).subrange(0, nodes.len() as int) =~= node_views(nodes@));
    Some(out)
}

/// Whether a C syntax tree is built for `text`.
pub uninterp spec fn c_tree_built(text: Seq<char>) -> bool;

/// The top-level nodes of the C syntax tree of `text`, in order.
pub uninterp spec fn c_top_nodes(text: Seq<char>) -> Seq<NodeModel>;

/// Relies on `tree_sitter::Parser::new`, `Parser::set_language` with `tree_sitter_c::LANGUAGE`
/// (which fails only on a grammar version mismatch) and `Parser::parse` (which gives no tree only
/// without a language, on a timeout or on cancellation, none of which a fresh parser has), then
/// on `Tree::root_node` and `Node::children`, `kind`, `start_byte` and `end_byte`: the root's
/// children in order, each as its kind and byte span. The result depends on the text alone.
#[verifier::external_body]
fn c_top_level_nodes(text: &str) -> (r: Option<Vec<TopNode>>)
    ensures
        r is Some <==> c_tree_built(text@),
        r is Some ==> node_views(r->0@) == c_top_nodes(text@),
{
    let mut parser = tree_sitter::Parser::new();
    parser.set_language(&tree_sitter_c::LANGUAGE.into()).ok()?;
    let tree = parser.parse(text, None)?;
    let root = tree.root_node();
    let mut cursor = root.walk();
    Some(root.children(&mut cursor).map(
        |n| TopNode { kind: n.kind().to_string(), start: n.start_byte(), end: n.end_byte() },
    ).collect())
}

/// Parses `source` as C and keeps the text before each top-level function definition.
///
/// Fails when no syntax tree is built, or when a function definition of the tree lies outside
/// the text.
pub fn strip_function_definitions(source: &str) -> (r: Result<Vec<u8>, Error>)
    ensures
        r is Ok <==> c_tree_built(source@) && text_before_functions_spec(
            source.spec_bytes(),
            c_top_nodes(source@),
        ) is Some,
        r matches Ok(v) ==> text_before_functions_spec(source.spec_bytes(), c_top_nodes(source@))
            == Some(v@),
        r matches Err(e) ==> e is SyntaxTree,
{
    let nodes = match c_top_level_nodes(source) {
        Some(n) => n,
        None => return Err(Error::SyntaxTree(String::from_str("no syntax tree was built"))),
    };
    match text_before_functions(source.as_bytes(), &nodes) {
        Some(v) => Ok(v),
        None => Err(
            Error::SyntaxTree(String::from_str("a function definition lies outside the text")),
        ),
    }
}

} // verus!
