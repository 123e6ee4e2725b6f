use vstd::prelude::*;

use crate::syntax::{IdentTok, LitKind, LitTok, Node, PathSeg};
use crate::keywords::{is_keyword, is_keyword_spec};
use crate::{Color, Highlight};

verus! {

/// A highlight together with the 1-based source line it belongs to.
#[derive(Clone, Copy, PartialEq, Eq, Structural, Debug)]
pub struct Placed {
    pub line: usize,
    pub start: usize,
    pub end: usize,
    pub color: Color,
}

impl Placed {
    /// The per-line part of a placed highlight.
    pub open spec fn hl(self) -> Highlight {
        Highlight { start: self.start, end: self.end, color: self.color }
    }
}

/// The color of each literal form; `None` for the opaque form, which is
/// never highlighted.
pub open spec fn lit_color(k: LitKind) -> Option<Color> {
    match k {
        LitKind::Str | LitKind::ByteStr => Some(Color::String),
        LitKind::Byte | LitKind::Char => Some(Color::Char),
        LitKind::Int | LitKind::Float | LitKind::Bool => Some(Color::Number),
        LitKind::Other => None,
    }
}

/// What a literal token contributes: one highlight in its color when it
/// begins and ends on the same line, nothing otherwise.
pub open spec fn lit_hls(l: LitTok) -> Seq<Placed> {
    if l.start_line == l.end_line {
        match lit_color(l.kind) {
            Some(c) => seq![
                Placed { line: l.start_line, start: l.start_col, end: l.end_col, color: c },
            ],
            None => seq![],
        }
    } else {
        seq![]
    }
}

/// The Keyword highlight of an identifier token.
pub open spec fn kw_hl(t: IdentTok) -> Placed {
    Placed { line: t.line, start: t.start, end: t.end, color: Color::Keyword }
}

/// What an identifier outside call-name position contributes: one
/// Keyword highlight when it is in the keyword table, nothing otherwise.
pub open spec fn ident_hls(t: IdentTok) -> Seq<Placed> {
    if is_keyword_spec(t.name@) {
        seq![kw_hl(t)]
    } else {
        seq![]
    }
}

/// The Function highlight of a token in call-name position.
pub open spec fn fun_hl(t: IdentTok) -> Placed {
    Placed { line: t.line, start: t.start, end: t.end, color: Color::Function }
}

/// The call-name token of a callee that is a bare single identifier:
/// an unqualified path of one segment with no generic arguments.
/// Any other callee shape yields `None`.
pub open spec fn bare_callee(n: Node) -> Option<IdentTok> {
    match n {
        Node::Path { qualified, segments } => {
            if !qualified && segments.len() == 1 && !segments[0].has_args {
                Some(segments[0].ident)
            } else {
                None
            }
        },
        _ => None,
    }
}

/// Every highlight a node contributes, in visitation order.
///
/// A method-call name and the name of a call through a bare identifier
/// are Function highlights whatever the keyword table says of the same
/// text: call position wins. Traversal still descends into every child.
pub open spec fn node_hls(n: Node) -> Seq<Placed>
    decreases n,
{
    match n {
        Node::Lit(l) => lit_hls(l),
        Node::Ident(t) => ident_hls(t),
        Node::Path { qualified, segments } => segs_hls(segments@),
        Node::MethodCall { name, children } => seq![fun_hl(name)] + nodes_hls(children@),
        Node::Call { callee, args } => {
            match bare_callee(*callee) {
                Some(t) => seq![fun_hl(t)] + nodes_hls(args@),
                None => node_hls(*callee) + nodes_hls(args@),
            }
        },
        Node::Group { children } => nodes_hls(children@),
    }
}

/// The concatenated highlights of a sequence of sibling nodes.
pub open spec fn nodes_hls(s: Seq<Node>) -> Seq<Placed>
    decreases s,
{
    if s.len() == 0 {
        seq![]
    } else {
        node_hls(s[0]) + nodes_hls(s.subrange(1, s.len() as int))
    }
}

/// The highlights of a sequence of path segments: for each segment, the
/// keyword rule on its identifier, then its generic arguments.
pub open spec fn segs_hls(s: Seq<PathSeg>) -> Seq<Placed>
    decreases s,
{
    if s.len() == 0 {
        seq![]
    } else {
        ident_hls(s[0].ident) + nodes_hls(s[0].args@) + segs_hls(s.subrange(1, s.len() as int))
    }
}

/// A literal that begins and ends on one line yields exactly one
/// highlight, in its category's color and at its exact column range; an
/// otherwise identical literal spanning more than one line yields
/// nothing at all.
pub proof fn lemma_literal_single_line(a: LitTok, b: LitTok, c: Color)
    requires
        a.kind == b.kind,
        lit_color(a.kind) == Some(c),
        a.start_line == a.end_line,
        b.start_line != b.end_line,
    ensures
        node_hls(Node::Lit(a)) == seq![
            Placed { line: a.start_line, start: a.start_col, end: a.end_col, color: c },
        ],
        node_hls(Node::Lit(b)) == Seq::<Placed>::empty(),
{
}

/// In call-name position an identifier is recorded as Function, never as
/// Keyword, even when the keyword table contains its text: a call through
/// a bare identifier yields exactly one highlight for the callee, colored
/// Function, followed by the arguments' highlights.
pub proof fn lemma_call_name_overrides_keyword(n: Node, t: IdentTok)
    requires
        n is Call,
        bare_callee(*n->callee) == Some(t),
    ensures
        node_hls(n) == seq![fun_hl(t)] + nodes_hls(n->args@),
        node_hls(n)[0] == (Placed { line: t.line, start: t.start, end: t.end, color: Color::Function }),
{
    assert(seq![fun_hl(t)] + nodes_hls(n->args@) == node_hls(n));
    assert((seq![fun_hl(t)] + nodes_hls(n->args@))[0] == fun_hl(t));
}

/// A method-call name is recorded as Function whatever the keyword table
/// says of the same text; the receiver and the arguments are still
/// visited after it.
pub proof fn lemma_method_name_function(n: Node, t: IdentTok)
    requires
        n is MethodCall,
        n->MethodCall_name == t,
    ensures
        node_hls(n) == seq![fun_hl(t)] + nodes_hls(n->MethodCall_children@),
        node_hls(n)[0] == (Placed { line: t.line, start: t.start, end: t.end, color: Color::Function }),
{
    assert((seq![fun_hl(t)] + nodes_hls(n->MethodCall_children@))[0] == fun_hl(t));
}

/// A path made only of keyword identifiers without generic arguments is
/// highlighted with exactly one Keyword highlight per identifier, at its
/// exact column range, in order.
pub proof fn lemma_segs_all_keywords(s: Seq<PathSeg>)
    requires
        forall|i: int| 0 <= i < s.len() ==> is_keyword_spec((#[trigger] s[i]).ident.name@),
        forall|i: int| 0 <= i < s.len() ==> (#[trigger] s[i]).args@.len() == 0,
    ensures
        segs_hls(s) == Seq::new(s.len(), |i: int| kw_hl(s[i].ident)),
    decreases s.len(),
{
    if s.len() == 0 {
        assert(segs_hls(s) =~= Seq::new(0, |i: int| kw_hl(s[i].ident)));
    } else {
        let t = s.subrange(1, s.len() as int);
        assert forall|i: int| 0 <= i < t.len() implies is_keyword_spec(
            (#[trigger] t[i]).ident.name@,
        ) && (#[trigger] t[i]).args@.len() == 0 by {
            assert(t[i] == s[i + 1]);
        }
        lemma_segs_all_keywords(t);
        assert(s[0].args@ =~= Seq::<Node>::empty());
        assert(nodes_hls(s[0].args@) =~= Seq::<Placed>::empty());
        assert(ident_hls(s[0].ident) == seq![kw_hl(s[0].ident)]);
        assert(segs_hls(s) =~= seq![kw_hl(s[0].ident)] + Seq::new(
            t.len(),
            |i: int| kw_hl(t[i].ident),
        ));
        assert(segs_hls(s) =~= Seq::new(s.len(), |i: int| kw_hl(s[i].ident)));
    }
}

/// The highlights of one node standing alone are the highlights of that node.
proof fn lemma_nodes_hls_one(x: Node)
    ensures
        nodes_hls(seq![x]) == node_hls(x),
{
    assert(seq![x].subrange(1, 1) =~= Seq::<Node>::empty());
    assert(nodes_hls(Seq::<Node>::empty()) =~= Seq::<Placed>::empty());
    assert(node_hls(x) + Seq::<Placed>::empty() =~= node_hls(x));
}

/// Sibling highlights concatenate: visiting `a` then `b` is visiting `a + b`.
proof fn lemma_nodes_hls_concat(a: Seq<Node>, b: Seq<Node>)
    ensures
        nodes_hls(a + b) == nodes_hls(a) + nodes_hls(b),
    decreases a.len(),
{
    if a.len() == 0 {
        assert(a + b =~= b);
        assert(nodes_hls(a) + nodes_hls(b) =~= nodes_hls(b));
    } else {
        let t = a.subrange(1, a.len() as int);
        lemma_nodes_hls_concat(t, b);
        assert((a + b).subrange(1, (a + b).len() as int) =~= t + b);
        assert((a + b)[0] == a[0]);
        assert((a + b).len() != 0);
        assert(node_hls(a[0]) + (nodes_hls(t) + nodes_hls(b)) =~= (node_hls(a[0]) + nodes_hls(
            t,
        )) + nodes_hls(b));
    }
}

/// Extending a visited prefix by one node appends that node's highlights.
proof fn lemma_nodes_hls_snoc(s: Seq<Node>, i: int)
    requires
        0 <= i < s.len(),
    ensures
        nodes_hls(s.subrange(0, i + 1)) == nodes_hls(s.subrange(0, i)) + node_hls(s[i]),
{
    assert(s.subrange(0, i + 1) =~= s.subrange(0, i) + seq![s[i]]);
    lemma_nodes_hls_concat(s.subrange(0, i), seq![s[i]]);
    lemma_nodes_hls_one(s[i]);
}

/// The segment analogue of `lemma_nodes_hls_snoc`.
proof fn lemma_segs_hls_snoc(s: Seq<PathSeg>, i: int)
    requires
        0 <= i < s.len(),
    ensures
        segs_hls(s.subrange(0, i + 1)) == segs_hls(s.subrange(0, i)) + ident_hls(s[i].ident)
            + nodes_hls(s[i].args@),
    decreases i,
{
    if i == 0 {
        let one = s.subrange(0, 1);
        assert(one.len() == 1);
        assert(one[0] == s[0]);
        assert(one.subrange(1, 1) =~= Seq::<PathSeg>::empty());
        assert(s.subrange(0, 0) =~= Seq::<PathSeg>::empty());
        assert(segs_hls(one) =~= ident_hls(s[0].ident) + nodes_hls(s[0].args@) + segs_hls(
            Seq::<PathSeg>::empty(),
        ));
        assert(segs_hls(one) =~= segs_hls(s.subrange(0, 0)) + ident_hls(s[0].ident) + nodes_hls(
            s[0].args@,
        ));
    } else {
        let t = s.subrange(1, s.len() as int);
        lemma_segs_hls_snoc(t, i - 1);
        assert(t.subrange(0, i) =~= s.subrange(0, i + 1).subrange(1, i + 1));
        assert(t.subrange(0, i - 1) =~= s.subrange(0, i).subrange(1, i));
        assert(t[i - 1] == s[i]);
        let p0 = s.subrange(0, i);
        let p1 = s.subrange(0, i + 1);
        assert(p1[0] == s[0] && p0[0] == s[0]);
        assert(p1.subrange(1, p1.len() as int) =~= t.subrange(0, i));
        assert(p0.subrange(1, p0.len() as int) =~= t.subrange(0, i - 1));
        assert(segs_hls(p1) =~= ident_hls(s[0].ident) + nodes_hls(s[0].args@) + segs_hls(
            t.subrange(0, i),
        ));
        assert(segs_hls(p0) =~= ident_hls(s[0].ident) + nodes_hls(s[0].args@) + segs_hls(
            t.subrange(0, i - 1),
        ));
        assert(segs_hls(p1) =~= segs_hls(p0) + ident_hls(s[i].ident) + nodes_hls(s[i].args@));
    }
}

/// Walks one node, appending every highlight it and its descendants
/// contribute, in visitation order.
pub fn visit_node(n: &Node, out: &mut Vec<Placed>)
    ensures
        final(out)@ == old(out)@ + node_hls(*n),
    decreases *n,
{
    match n {
        Node::Lit(l) => {
            if l.start_line == l.end_line {
                match l.kind {
                    LitKind::Str | LitKind::ByteStr => {
                        out.push(
                            Placed {
                                line: l.start_line,
                                start: l.start_col,
                                end: l.end_col,
                                color: Color::String,
                            },
                        );
                    },
                    LitKind::Byte | LitKind::Char => {
                        out.push(
                            Placed {
                                line: l.start_line,
                                start: l.start_col,
                                end: l.end_col,
                                color: Color::Char,
                            },
                        );
                    },
                    LitKind::Int | LitKind::Float | LitKind::Bool => {
                        out.push(
                            Placed {
                                line: l.start_line,
                                start: l.start_col,
                                end: l.end_col,
                                color: Color::Number,
                            },
                        );
                    },
                    LitKind::Other => {},
                }
            }
            proof {
                assert(out@ =~= old(out)@ + node_hls(*n));
            }
        },
        Node::Ident(t) => {
            if is_keyword(t.name.as_str()) {
                out.push(Placed { line: t.line, start: t.start, end: t.end, color: Color::Keyword });
            }
            proof {
                assert(out@ =~= old(out)@ + node_hls(*n));
            }
        },
        Node::Path { qualified: _, segments } => {
            visit_segs(segments, out);
        },
        Node::MethodCall { name, children } => {
            out.push(
                Placed { line: name.line, start: name.start, end: name.end, color: Color::Function },
            );
            visit_children(children, out);
            proof {
                assert(out@ =~= old(out)@ + node_hls(*n));
            }
        },
        Node::Call { callee, args } => {
            let mut bare = false;
            match &**callee {
                Node::Path { qualified, segments } => {
                    if !*qualified && segments.len() == 1 && !segments[0].has_args {
                        bare = true;
                        let t = &segments[0].ident;
                        out.push(
                            Placed {
                                line: t.line,
                                start: t.start,
                                end: t.end,
                                color: Color::Function,
                            },
                        );
                    }
                },
                _ => {},
            }
            if !bare {
                visit_node(&**callee, out);
            }
            visit_children(args, out);
            proof {
                assert(out@ =~= old(out)@ + node_hls(*n));
            }
        },
        Node::Group { children } => {
            visit_children(children, out);
        },
    }
}

/// Walks a list of sibling nodes left to right.
pub fn visit_children(children: &Vec<Node>, out: &mut Vec<Placed>)
    ensures
        final(out)@ == old(out)@ + nodes_hls(children@),
    decreases children@,
{
    let ghost base = out@;
    let mut i: usize = 0;
    while i < children.len()
        invariant
            i <= children.len(),
            out@ == base + nodes_hls(children@.subrange(0, i as int)),
        decreases children.len() - i,
    {
        visit_node(&children[i], out);
        proof {
            lemma_nodes_hls_snoc(children@, i as int);
        }
        i = i + 1;
    }
    proof {
        assert(children@.subrange(0, children@.len() as int) =~= children@);
    }
}

/// Walks a list of path segments left to right: for each, the keyword
/// rule on its identifier, then its generic arguments.
pub fn visit_segs(segments: &Vec<PathSeg>, out: &mut Vec<Placed>)
    ensures
        final(out)@ == old(out)@ + segs_hls(segments@),
    decreases segments@,
{
    let ghost base = out@;
    let mut i: usize = 0;
    while i < segments.len()
        invariant
            i <= segments.len(),
            out@ == base + segs_hls(segments@.subrange(0, i as int)),
        decreases segments.len() - i,
    {
        let seg = &segments[i];
        if is_keyword(seg.ident.name.as_str()) {
            out.push(
                Placed {
                    line: seg.ident.line,
                    start: seg.ident.start,
                    end: seg.ident.end,
                    color: Color::Keyword,
                },
            );
        }
        visit_children(&seg.args, out);
        proof {
            lemma_segs_hls_snoc(segments@, i as int);
            assert(out@ =~= base + segs_hls(segments@.subrange(0, i + 1 as int)));
        }
        i = i + 1;
    }
    proof {
        assert(segments@.subrange(0, segments@.len() as int) =~= segments@);
    }
}

} // verus!
