use vstd::prelude::*;

use crate::syntax::Node;
use crate::visit::{node_hls, visit_node, Placed};
use crate::aggregate::{
    aggregate, has_line, line_filter, sort_by_start, sorted_by_start, SyntaxInfo,
};
use crate::Color;

verus! {

/// The outcome of parsing one attribute's token stream as an expression.
/// A stream that does not parse contributes no highlights; it never
/// fails the whole call.
pub enum ExprSlot {
    Parsed(Node),
    Invalid,
}

/// An if-condition attribute: its condition and its alternate expression.
pub struct Condition {
    pub condition: ExprSlot,
    pub alternate: ExprSlot,
}

/// The endianness of a field: fixed, or chosen by an expression.
pub enum CondEndian {
    Fixed,
    Cond(ExprSlot),
}

/// The map attribute of a field: none, a plain mapping expression, or a
/// fallible one. Both expression-bearing forms are inspected alike.
pub enum MapMode {
    NoMap,
    Direct(ExprSlot),
    Try(ExprSlot),
}

/// The outcome of the secondary parse of one named-argument token stream
/// into comma-separated `name = expression` pairs: the pairs' optional
/// expressions, or nothing when the stream does not parse as such a list.
pub enum ArgListSlot {
    Parsed(Vec<Option<Node>>),
    Invalid,
}

/// The arguments passed to a field's reader, in one of three shapes.
pub enum PassedArgs {
    Absent,
    List(Vec<ExprSlot>),
    Tuple(ExprSlot),
    Named(Vec<ArgListSlot>),
}

/// How a field's value is obtained; only the calc mode carries an
/// expression worth inspecting.
pub enum ReadMode {
    Normal,
    Calc(ExprSlot),
}

/// One assertion attached to a field: its condition and, when present,
/// its error message or error expression.
pub struct Assertion {
    pub condition: ExprSlot,
    pub consequent: Option<ExprSlot>,
}

/// A pre-computed span that is always colored Keyword, trusted verbatim:
/// it is appended after traversal with no single-line check.
#[derive(Clone, Copy, PartialEq, Eq, Structural, Debug)]
pub struct KeywordSpan {
    pub line: usize,
    pub start: usize,
    pub end: usize,
}

/// One annotated field as the highlighter sees it: its type annotation
/// and every populated, independent attribute slot. Absence of one slot
/// never affects another.
pub struct FieldDescriptor {
    pub ty: Node,
    pub count: Option<ExprSlot>,
    pub offset: Option<ExprSlot>,
    pub pad_before: Option<ExprSlot>,
    pub pad_after: Option<ExprSlot>,
    pub align_before: Option<ExprSlot>,
    pub align_after: Option<ExprSlot>,
    pub seek_before: Option<ExprSlot>,
    pub pad_size_to: Option<ExprSlot>,
    pub offset_after: Option<ExprSlot>,
    pub if_cond: Option<Condition>,
    pub magic: Option<ExprSlot>,
    pub endian: CondEndian,
    pub map_mode: MapMode,
    pub args: PassedArgs,
    pub read_mode: ReadMode,
    pub assertions: Vec<Assertion>,
    pub keyword_spans: Vec<KeywordSpan>,
}

/// What one parsed-or-invalid expression contributes.
pub open spec fn expr_hls(s: ExprSlot) -> Seq<Placed> {
    match s {
        ExprSlot::Parsed(n) => node_hls(n),
        ExprSlot::Invalid => Seq::empty(),
    }
}

/// What one optional attribute slot contributes.
pub open spec fn slot_hls(s: Option<ExprSlot>) -> Seq<Placed> {
    match s {
        Some(e) => expr_hls(e),
        None => Seq::empty(),
    }
}

/// What the if-condition slot contributes: condition, then alternate.
pub open spec fn cond_hls(c: Option<Condition>) -> Seq<Placed> {
    match c {
        Some(c) => expr_hls(c.condition) + expr_hls(c.alternate),
        None => Seq::empty(),
    }
}

/// What the endianness slot contributes: its expression only when the
/// endianness is conditional.
pub open spec fn endian_hls(e: CondEndian) -> Seq<Placed> {
    match e {
        CondEndian::Cond(s) => expr_hls(s),
        CondEndian::Fixed => Seq::empty(),
    }
}

/// What the map slot contributes, plain or fallible alike.
pub open spec fn map_hls(m: MapMode) -> Seq<Placed> {
    match m {
        MapMode::Direct(s) => expr_hls(s),
        MapMode::Try(s) => expr_hls(s),
        MapMode::NoMap => Seq::empty(),
    }
}

/// What one optional named-pair expression contributes.
pub open spec fn opt_node_hls(n: Option<Node>) -> Seq<Placed> {
    match n {
        Some(n) => node_hls(n),
        None => Seq::empty(),
    }
}

/// What the pairs of one parsed named-argument list contribute, left to
/// right; a pair with no expression contributes nothing.
pub open spec fn pairs_hls(s: Seq<Option<Node>>) -> Seq<Placed>
    decreases s.len(),
{
    if s.len() == 0 {
        Seq::empty()
    } else {
        pairs_hls(s.drop_last()) + opt_node_hls(s.last())
    }
}

/// What one named-argument token stream contributes.
pub open spec fn named_list_hls(a: ArgListSlot) -> Seq<Placed> {
    match a {
        ArgListSlot::Parsed(pairs) => pairs_hls(pairs@),
        ArgListSlot::Invalid => Seq::empty(),
    }
}

/// What a sequence of named-argument token streams contributes.
pub open spec fn named_hls(s: Seq<ArgListSlot>) -> Seq<Placed>
    decreases s.len(),
{
    if s.len() == 0 {
        Seq::empty()
    } else {
        named_hls(s.drop_last()) + named_list_hls(s.last())
    }
}

/// What a sequence of positional argument expressions contributes.
pub open spec fn slots_hls(s: Seq<ExprSlot>) -> Seq<Placed>
    decreases s.len(),
{
    if s.len() == 0 {
        Seq::empty()
    } else {
        slots_hls(s.drop_last()) + expr_hls(s.last())
    }
}

/// What the passed-argument slot contributes, by its shape.
pub open spec fn args_hls(a: PassedArgs) -> Seq<Placed> {
    match a {
        PassedArgs::Absent => Seq::empty(),
        PassedArgs::List(v) => slots_hls(v@),
        PassedArgs::Tuple(e) => expr_hls(e),
        PassedArgs::Named(v) => named_hls(v@),
    }
}

/// What the read mode contributes: only a calc expression.
pub open spec fn read_mode_hls(r: ReadMode) -> Seq<Placed> {
    match r {
        ReadMode::Calc(e) => expr_hls(e),
        ReadMode::Normal => Seq::empty(),
    }
}

/// What one assertion contributes: its condition, then its consequent
/// when present.
pub open spec fn assertion_hls(a: Assertion) -> Seq<Placed> {
    expr_hls(a.condition) + match a.consequent {
        Some(e) => expr_hls(e),
        None => Seq::empty(),
    }
}

/// What a field's assertions contribute, in order.
pub open spec fn assertions_hls(s: Seq<Assertion>) -> Seq<Placed>
    decreases s.len(),
{
    if s.len() == 0 {
        Seq::empty()
    } else {
        assertions_hls(s.drop_last()) + assertion_hls(s.last())
    }
}

/// The verbatim Keyword highlights of a field's pre-supplied spans.
pub open spec fn kw_hls(s: Seq<KeywordSpan>) -> Seq<Placed>
    decreases s.len(),
{
    if s.len() == 0 {
        Seq::empty()
    } else {
        kw_hls(s.drop_last()).push(
            Placed {
                line: s.last().line,
                start: s.last().start,
                end: s.last().end,
                color: Color::Keyword,
            },
        )
    }
}

/// Everything a field's populated attribute slots contribute, in the
/// fixed inspection order.
pub open spec fn attr_hls(f: FieldDescriptor) -> Seq<Placed> {
    slot_hls(f.count) + slot_hls(f.offset) + slot_hls(f.pad_before) + slot_hls(f.pad_after)
        + slot_hls(f.align_before) + slot_hls(f.align_after) + slot_hls(f.seek_before) + slot_hls(
        f.pad_size_to,
    ) + slot_hls(f.offset_after) + cond_hls(f.if_cond) + slot_hls(f.magic) + endian_hls(f.endian)
        + map_hls(f.map_mode) + args_hls(f.args) + read_mode_hls(f.read_mode) + assertions_hls(
        f.assertions@,
    )
}

/// Everything recorded for a field, in discovery order: its type
/// annotation, then its attribute expressions, then its verbatim
/// keyword spans.
pub open spec fn field_hls(f: FieldDescriptor) -> Seq<Placed> {
    node_hls(f.ty) + attr_hls(f) + kw_hls(f.keyword_spans@)
}

/// Whether an optional slot contributes nothing: it is absent, or its
/// token stream failed to parse.
pub open spec fn slot_silent(s: Option<ExprSlot>) -> bool {
    s is None || s == Some(ExprSlot::Invalid)
}

/// Two slots that agree, or that are both silent — one absent where the
/// other holds an invalid stream.
pub open spec fn same_up_to_invalid(a: Option<ExprSlot>, b: Option<ExprSlot>) -> bool {
    a == b || (slot_silent(a) && slot_silent(b))
}

/// A syntactically invalid attribute stream is swallowed in silence: a
/// descriptor holding one produces exactly the table it would produce
/// with that slot absent, with every other slot and the type annotation
/// contributing unaffected, and the call still succeeds.
pub proof fn lemma_invalid_attribute_ignored(f: FieldDescriptor, g: FieldDescriptor)
    requires
        same_up_to_invalid(f.count, g.count),
        same_up_to_invalid(f.offset, g.offset),
        same_up_to_invalid(f.pad_before, g.pad_before),
        same_up_to_invalid(f.pad_after, g.pad_after),
        same_up_to_invalid(f.align_before, g.align_before),
        same_up_to_invalid(f.align_after, g.align_after),
        same_up_to_invalid(f.seek_before, g.seek_before),
        same_up_to_invalid(f.pad_size_to, g.pad_size_to),
        same_up_to_invalid(f.offset_after, g.offset_after),
        same_up_to_invalid(f.magic, g.magic),
        f.ty == g.ty,
        f.if_cond == g.if_cond,
        f.endian == g.endian,
        f.map_mode == g.map_mode,
        f.args == g.args,
        f.read_mode == g.read_mode,
        f.assertions@ == g.assertions@,
        f.keyword_spans@ == g.keyword_spans@,
    ensures
        field_hls(f) == field_hls(g),
{
    assert(slot_hls(f.count) == slot_hls(g.count));
    assert(slot_hls(f.offset) == slot_hls(g.offset));
    assert(slot_hls(f.pad_before) == slot_hls(g.pad_before));
    assert(slot_hls(f.pad_after) == slot_hls(g.pad_after));
    assert(slot_hls(f.align_before) == slot_hls(g.align_before));
    assert(slot_hls(f.align_after) == slot_hls(g.align_after));
    assert(slot_hls(f.seek_before) == slot_hls(g.seek_before));
    assert(slot_hls(f.pad_size_to) == slot_hls(g.pad_size_to));
    assert(slot_hls(f.offset_after) == slot_hls(g.offset_after));
    assert(slot_hls(f.magic) == slot_hls(g.magic));
}

/// A field with no populated attribute slots and no pre-supplied keyword
/// spans, whose type annotation is a path of keyword identifiers without
/// generic arguments, is recorded with exactly one Keyword highlight per
/// identifier occurrence, at its exact column range, and nothing else.
pub proof fn lemma_keyword_type_exact(f: FieldDescriptor, segments: Seq<crate::syntax::PathSeg>)
    requires
        f.ty is Path,
        f.ty->segments@ == segments,
        forall|i: int|
            0 <= i < segments.len() ==> crate::keywords::is_keyword_spec(
                (#[trigger] segments[i]).ident.name@,
            ),
        forall|i: int| 0 <= i < segments.len() ==> (#[trigger] segments[i]).args@.len() == 0,
        f.count is None,
        f.offset is None,
        f.pad_before is None,
        f.pad_after is None,
        f.align_before is None,
        f.align_after is None,
        f.seek_before is None,
        f.pad_size_to is None,
        f.offset_after is None,
        f.if_cond is None,
        f.magic is None,
        f.endian is Fixed,
        f.map_mode is NoMap,
        f.args is Absent,
        f.read_mode is Normal,
        f.assertions@.len() == 0,
        f.keyword_spans@.len() == 0,
    ensures
        field_hls(f) == Seq::new(segments.len(), |i: int| crate::visit::kw_hl(segments[i].ident)),
{
    crate::visit::lemma_segs_all_keywords(segments);
    assert(node_hls(f.ty) == crate::visit::segs_hls(segments));
    assert(f.assertions@ =~= Seq::<Assertion>::empty());
    assert(f.keyword_spans@ =~= Seq::<KeywordSpan>::empty());
    assert(assertions_hls(f.assertions@) =~= Seq::<Placed>::empty());
    assert(kw_hls(f.keyword_spans@) =~= Seq::<Placed>::empty());
    assert(attr_hls(f) =~= Seq::<Placed>::empty());
    assert(field_hls(f) =~= node_hls(f.ty));
}

/// Walks one parsed-or-invalid expression.
fn visit_expr_slot(s: &ExprSlot, out: &mut Vec<Placed>)
    ensures
        final(out)@ == old(out)@ + expr_hls(*s),
{
    match s {
        ExprSlot::Parsed(n) => {
            visit_node(n, out);
        },
        ExprSlot::Invalid => {
            proof {
                assert(out@ =~= old(out)@ + expr_hls(*s));
            }
        },
    }
}

/// Walks one optional attribute slot.
fn visit_slot(s: &Option<ExprSlot>, out: &mut Vec<Placed>)
    ensures
        final(out)@ == old(out)@ + slot_hls(*s),
{
    match s {
        Some(e) => {
            visit_expr_slot(e, out);
        },
        None => {
            proof {
                assert(out@ =~= old(out)@ + slot_hls(*s));
            }
        },
    }
}

/// Walks the pairs of one parsed named-argument list.
fn visit_pairs(pairs: &Vec<Option<Node>>, out: &mut Vec<Placed>)
    ensures
        final(out)@ == old(out)@ + pairs_hls(pairs@),
{
    let ghost base = out@;
    let mut i: usize = 0;
    while i < pairs.len()
        invariant
            i <= pairs.len(),
            out@ == base + pairs_hls(pairs@.subrange(0, i as int)),
        decreases pairs.len() - i,
    {
        match &pairs[i] {
            Some(n) => {
                visit_node(n, out);
            },
            None => {},
        }
        proof {
            let cur = pairs@.subrange(0, i + 1);
            assert(cur.drop_last() =~= pairs@.subrange(0, i as int));
            assert(cur.last() == pairs@[i as int]);
            assert(out@ =~= base + pairs_hls(cur));
        }
        i = i + 1;
    }
    proof {
        assert(pairs@.subrange(0, pairs@.len() as int) =~= pairs@);
    }
}

/// Walks the passed-argument slot, by its shape.
fn visit_args(a: &PassedArgs, out: &mut Vec<Placed>)
    ensures
        final(out)@ == old(out)@ + args_hls(*a),
{
    match a {
        PassedArgs::Absent => {
            proof {
                assert(out@ =~= old(out)@ + args_hls(*a));
            }
        },
        PassedArgs::List(v) => {
            let ghost base = out@;
            let mut i: usize = 0;
            while i < v.len()
                invariant
                    i <= v.len(),
                    out@ == base + slots_hls(v@.subrange(0, i as int)),
                decreases v.len() - i,
            {
                visit_expr_slot(&v[i], out);
                proof {
                    let cur = v@.subrange(0, i + 1);
                    assert(cur.drop_last() =~= v@.subrange(0, i as int));
                    assert(cur.last() == v@[i as int]);
                    assert(out@ =~= base + slots_hls(cur));
                }
                i = i + 1;
            }
            proof {
                assert(v@.subrange(0, v@.len() as int) =~= v@);
            }
        },
        PassedArgs::Tuple(e) => {
            visit_expr_slot(e, out);
        },
        PassedArgs::Named(v) => {
            let ghost base = out@;
            let mut i: usize = 0;
            while i < v.len()
                invariant
                    i <= v.len(),
                    out@ == base + named_hls(v@.subrange(0, i as int)),
                decreases v.len() - i,
            {
                match &v[i] {
                    ArgListSlot::Parsed(pairs) => {
                        visit_pairs(pairs, out);
                    },
                    ArgListSlot::Invalid => {},
                }
                proof {
                    let cur = v@.subrange(0, i + 1);
                    assert(cur.drop_last() =~= v@.subrange(0, i as int));
                    assert(cur.last() == v@[i as int]);
                    assert(out@ =~= base + named_hls(cur));
                }
                i = i + 1;
            }
            proof {
                assert(v@.subrange(0, v@.len() as int) =~= v@);
            }
        },
    }
}

/// Walks every populated attribute slot of a field, in the fixed
/// inspection order. A slot whose token stream did not parse is passed
/// over in silence; every other slot is inspected unaffected.
#[verifier::rlimit(100)]
fn visit_field_attributes(f: &FieldDescriptor, out: &mut Vec<Placed>)
    ensures
        final(out)@ == old(out)@ + attr_hls(*f),
{
    let ghost base = out@;
    visit_slot(&f.count, out);
    visit_slot(&f.offset, out);
    proof {
        assert(out@ =~= base + (slot_hls(f.count) + slot_hls(f.offset)));
    }
    visit_slot(&f.pad_before, out);
    proof {
        assert(out@ =~= base + (slot_hls(f.count) + slot_hls(f.offset) + slot_hls(f.pad_before)));
    }
    visit_slot(&f.pad_after, out);
    proof {
        assert(out@ =~= base + (slot_hls(f.count) + slot_hls(f.offset) + slot_hls(f.pad_before)
            + slot_hls(f.pad_after)));
    }
    visit_slot(&f.align_before, out);
    proof {
        assert(out@ =~= base + (slot_hls(f.count) + slot_hls(f.offset) + slot_hls(f.pad_before)
            + slot_hls(f.pad_after) + slot_hls(f.align_before)));
    }
    visit_slot(&f.align_after, out);
    proof {
        assert(out@ =~= base + (slot_hls(f.count) + slot_hls(f.offset) + slot_hls(f.pad_before)
            + slot_hls(f.pad_after) + slot_hls(f.align_before) + slot_hls(f.align_after)));
    }
    visit_slot(&f.seek_before, out);
    proof {
        assert(out@ =~= base + (slot_hls(f.count) + slot_hls(f.offset) + slot_hls(f.pad_before)
            + slot_hls(f.pad_after) + slot_hls(f.align_before) + slot_hls(f.align_after)
            + slot_hls(f.seek_before)));
    }
    visit_slot(&f.pad_size_to, out);
    proof {
        assert(out@ =~= base + (slot_hls(f.count) + slot_hls(f.offset) + slot_hls(f.pad_before)
            + slot_hls(f.pad_after) + slot_hls(f.align_before) + slot_hls(f.align_after)
            + slot_hls(f.seek_before) + slot_hls(f.pad_size_to)));
    }
    visit_slot(&f.offset_after, out);
    proof {
        assert(out@ =~= base + (slot_hls(f.count) + slot_hls(f.offset) + slot_hls(f.pad_before)
            + slot_hls(f.pad_after) + slot_hls(f.align_before) + slot_hls(f.align_after)
            + slot_hls(f.seek_before) + slot_hls(f.pad_size_to) + slot_hls(f.offset_after)));
    }
    match &f.if_cond {
        Some(c) => {
            visit_expr_slot(&c.condition, out);
            visit_expr_slot(&c.alternate, out);
        },
        None => {},
    }
    proof {
        assert(out@ =~= base + (slot_hls(f.count) + slot_hls(f.offset) + slot_hls(f.pad_before)
            + slot_hls(f.pad_after) + slot_hls(f.align_before) + slot_hls(f.align_after)
            + slot_hls(f.seek_before) + slot_hls(f.pad_size_to) + slot_hls(f.offset_after)
            + cond_hls(f.if_cond)));
    }
    visit_slot(&f.magic, out);
    proof {
        assert(out@ =~= base + (slot_hls(f.count) + slot_hls(f.offset) + slot_hls(f.pad_before)
            + slot_hls(f.pad_after) + slot_hls(f.align_before) + slot_hls(f.align_after)
            + slot_hls(f.seek_before) + slot_hls(f.pad_size_to) + slot_hls(f.offset_after)
            + cond_hls(f.if_cond) + slot_hls(f.magic)));
    }
    match &f.endian {
        CondEndian::Cond(e) => {
            visit_expr_slot(e, out);
        },
        CondEndian::Fixed => {},
    }
    proof {
        assert(out@ =~= base + (slot_hls(f.count) + slot_hls(f.offset) + slot_hls(f.pad_before)
            + slot_hls(f.pad_after) + slot_hls(f.align_before) + slot_hls(f.align_after)
            + slot_hls(f.seek_before) + slot_hls(f.pad_size_to) + slot_hls(f.offset_after)
            + cond_hls(f.if_cond) + slot_hls(f.magic) + endian_hls(f.endian)));
    }
    match &f.map_mode {
        MapMode::Direct(e) => {
            visit_expr_slot(e, out);
        },
        MapMode::Try(e) => {
            visit_expr_slot(e, out);
        },
        MapMode::NoMap => {},
    }
    proof {
        assert(out@ =~= base + (slot_hls(f.count) + slot_hls(f.offset) + slot_hls(f.pad_before)
            + slot_hls(f.pad_after) + slot_hls(f.align_before) + slot_hls(f.align_after)
            + slot_hls(f.seek_before) + slot_hls(f.pad_size_to) + slot_hls(f.offset_after)
            + cond_hls(f.if_cond) + slot_hls(f.magic) + endian_hls(f.endian) + map_hls(
            f.map_mode,
        )));
    }
    visit_args(&f.args, out);
    proof {
        assert(out@ =~= base + (slot_hls(f.count) + slot_hls(f.offset) + slot_hls(f.pad_before)
            + slot_hls(f.pad_after) + slot_hls(f.align_before) + slot_hls(f.align_after)
            + slot_hls(f.seek_before) + slot_hls(f.pad_size_to) + slot_hls(f.offset_after)
            + cond_hls(f.if_cond) + slot_hls(f.magic) + endian_hls(f.endian) + map_hls(f.map_mode)
            + args_hls(f.args)));
    }
    match &f.read_mode {
        ReadMode::Calc(e) => {
            visit_expr_slot(e, out);
        },
        ReadMode::Normal => {},
    }
    let ghost upto_mode = slot_hls(f.count) + slot_hls(f.offset) + slot_hls(f.pad_before)
        + slot_hls(f.pad_after) + slot_hls(f.align_before) + slot_hls(f.align_after) + slot_hls(
        f.seek_before,
    ) + slot_hls(f.pad_size_to) + slot_hls(f.offset_after) + cond_hls(f.if_cond) + slot_hls(
        f.magic,
    ) + endian_hls(f.endian) + map_hls(f.map_mode) + args_hls(f.args) + read_mode_hls(f.read_mode);
    proof {
        assert(out@ =~= base + upto_mode);
    }
    let ghost mid = out@;
    let mut i: usize = 0;
    while i < f.assertions.len()
        invariant
            i <= f.assertions.len(),
            out@ == mid + assertions_hls(f.assertions@.subrange(0, i as int)),
        decreases f.assertions.len() - i,
    {
        visit_expr_slot(&f.assertions[i].condition, out);
        match &f.assertions[i].consequent {
            Some(e) => {
                visit_expr_slot(e, out);
            },
            None => {},
        }
        proof {
            let cur = f.assertions@.subrange(0, i + 1);
            assert(cur.drop_last() =~= f.assertions@.subrange(0, i as int));
            assert(cur.last() == f.assertions@[i as int]);
            assert(out@ =~= mid + assertions_hls(cur));
        }
        i = i + 1;
    }
    proof {
        assert(f.assertions@.subrange(0, f.assertions@.len() as int) =~= f.assertions@);
        assert(out@ =~= base + (upto_mode + assertions_hls(f.assertions@)));
        assert(out@ =~= base + attr_hls(*f));
    }
}

/// Appends the field's pre-supplied keyword spans verbatim, after
/// traversal and with no single-line restriction.
fn visit_keyword_spans(spans: &Vec<KeywordSpan>, out: &mut Vec<Placed>)
    ensures
        final(out)@ == old(out)@ + kw_hls(spans@),
{
    let ghost base = out@;
    let mut i: usize = 0;
    while i < spans.len()
        invariant
            i <= spans.len(),
            out@ == base + kw_hls(spans@.subrange(0, i as int)),
        decreases spans.len() - i,
    {
        let s = spans[i];
        out.push(Placed { line: s.line, start: s.start, end: s.end, color: Color::Keyword });
        proof {
            let cur = spans@.subrange(0, i + 1);
            assert(cur.drop_last() =~= spans@.subrange(0, i as int));
            assert(cur.last() == spans@[i as int]);
            assert(out@ =~= base + kw_hls(cur));
        }
        i = i + 1;
    }
    proof {
        assert(spans@.subrange(0, spans@.len() as int) =~= spans@);
    }
}

/// Produces the complete highlight table for one field: the type
/// annotation and every populated attribute expression are walked, the
/// field's verbatim keyword spans are appended, and each line's
/// highlights are sorted by start column, stably.
///
/// There is no failure path: a malformed attribute merely contributes
/// nothing, and the table always covers every other slot.
pub fn get_syntax_highlights(field: &FieldDescriptor) -> (r: SyntaxInfo)
    ensures
        r.wf(),
        forall|l: usize| #[trigger] r.contains_line(l) <==> has_line(field_hls(*field), l),
        forall|i: int|
            0 <= i < r.lines@.len() ==> (#[trigger] r.lines@[i]).highlights@ == sort_by_start(
                line_filter(field_hls(*field), r.lines@[i].line),
            ),
        forall|i: int|
            0 <= i < r.lines@.len() ==> sorted_by_start((#[trigger] r.lines@[i]).highlights@),
{
    let mut raw: Vec<Placed> = Vec::new();
    visit_node(&field.ty, &mut raw);
    visit_field_attributes(field, &mut raw);
    visit_keyword_spans(&field.keyword_spans, &mut raw);
    proof {
        assert(raw@ =~= field_hls(*field));
    }
    aggregate(&raw)
}

} // verus!
