use vstd::prelude::*;
use vstd::multiset::Multiset;

use crate::visit::Placed;
use crate::Highlight;

verus! {

/// A line's highlights are in non-decreasing order of start column.
pub open spec fn sorted_by_start(s: Seq<Highlight>) -> bool {
    forall|i: int, j: int|
        0 <= i <= j < s.len() ==> (#[trigger] s[i]).start <= (#[trigger] s[j]).start
}

/// Stable insertion of `x` into `s`: `x` lands after every element whose
/// start column is at most `x`'s, so earlier-discovered equal starts stay
/// in front.
pub open spec fn insert_by_start(s: Seq<Highlight>, x: Highlight) -> Seq<Highlight>
    decreases s.len(),
{
    if s.len() == 0 {
        seq![x]
    } else if s.last().start <= x.start {
        s.push(x)
    } else {
        insert_by_start(s.drop_last(), x).push(s.last())
    }
}

/// Stable sort by start column: insert each element, left to right, into
/// the sorted image of what came before it.
pub open spec fn sort_by_start(s: Seq<Highlight>) -> Seq<Highlight>
    decreases s.len(),
{
    if s.len() == 0 {
        Seq::empty()
    } else {
        insert_by_start(sort_by_start(s.drop_last()), s.last())
    }
}

/// The highlights of `raw` that sit on `line`, in discovery order,
/// stripped of their line number. Nothing is deduplicated.
pub open spec fn line_filter(raw: Seq<Placed>, line: usize) -> Seq<Highlight>
    decreases raw.len(),
{
    if raw.len() == 0 {
        Seq::empty()
    } else {
        let rest = line_filter(raw.drop_last(), line);
        if raw.last().line == line {
            rest.push(raw.last().hl())
        } else {
            rest
        }
    }
}

/// Whether any highlight of `raw` sits on `line`.
pub open spec fn has_line(raw: Seq<Placed>, line: usize) -> bool {
    exists|k: int| 0 <= k < raw.len() && (#[trigger] raw[k]).line == line
}

/// The ordered highlights of one source line.
pub struct LineSyntax {
    pub line: usize,
    pub highlights: Vec<Highlight>,
}

/// The complete per-line highlight table for one field: a mapping from
/// 1-based source line to that line's ordered highlights. A line that is
/// absent has no highlights.
pub struct SyntaxInfo {
    pub lines: Vec<LineSyntax>,
}

impl SyntaxInfo {
    /// Each source line appears at most once in the table.
    pub open spec fn wf(self) -> bool {
        forall|i: int, j: int|
            0 <= i < j < self.lines@.len() ==> (#[trigger] self.lines@[i]).line != (
            #[trigger] self.lines@[j]).line
    }

    /// Whether the table has an entry for `line`.
    pub open spec fn contains_line(self, line: usize) -> bool {
        exists|i: int| 0 <= i < self.lines@.len() && (#[trigger] self.lines@[i]).line == line
    }

    /// The highlights recorded for `line`.
    pub open spec fn line_highlights(self, line: usize) -> Seq<Highlight> {
        let i = choose|i: int|
            0 <= i < self.lines@.len() && (#[trigger] self.lines@[i]).line == line;
        self.lines@[i].highlights@
    }

    /// Looks a line up in the table.
    pub fn get_line(&self, line: usize) -> (r: Option<&LineSyntax>)
        requires
            self.wf(),
        ensures
            match r {
                Some(ls) => self.contains_line(line) && ls.line == line && ls.highlights@
                    == self.line_highlights(line),
                None => !self.contains_line(line),
            },
    {
        let mut i: usize = 0;
        while i < self.lines.len()
            invariant
                i <= self.lines.len(),
                self.wf(),
                forall|j: int| 0 <= j < i ==> (#[trigger] self.lines@[j]).line != line,
            decreases self.lines.len() - i,
        {
            if self.lines[i].line == line {
                return Some(&self.lines[i]);
            }
            i = i + 1;
        }
        None
    }
}

/// `insert_by_start` adds one element; every element of the result is
/// either the inserted one or drawn from the input sequence.
proof fn lemma_insert_by_start_elems(s: Seq<Highlight>, x: Highlight)
    ensures
        insert_by_start(s, x).len() == s.len() + 1,
        forall|i: int|
            0 <= i < insert_by_start(s, x).len() ==> (#[trigger] insert_by_start(s, x)[i] == x
                || s.contains(insert_by_start(s, x)[i])),
    decreases s.len(),
{
    if s.len() == 0 {
    } else if s.last().start <= x.start {
        assert forall|i: int| 0 <= i < insert_by_start(s, x).len() implies (#[trigger] insert_by_start(
            s,
            x,
        )[i] == x || s.contains(insert_by_start(s, x)[i])) by {
            if i < s.len() {
                assert(s[i] == insert_by_start(s, x)[i]);
            }
        }
    } else {
        let t = s.drop_last();
        lemma_insert_by_start_elems(t, x);
        let r = insert_by_start(t, x);
        assert forall|i: int| 0 <= i < insert_by_start(s, x).len() implies (#[trigger] insert_by_start(
            s,
            x,
        )[i] == x || s.contains(insert_by_start(s, x)[i])) by {
            if i < r.len() {
                assert(insert_by_start(s, x)[i] == r[i]);
                if r[i] != x {
                    let k = choose|k: int| 0 <= k < t.len() && t[k] == r[i];
                    assert(s[k] == r[i]);
                }
            } else {
                assert(insert_by_start(s, x)[i] == s.last());
                assert(s[s.len() - 1] == s.last());
            }
        }
    }
}

/// Stable insertion keeps the sequence sorted.
proof fn lemma_insert_by_start_sorted(s: Seq<Highlight>, x: Highlight)
    requires
        sorted_by_start(s),
    ensures
        sorted_by_start(insert_by_start(s, x)),
    decreases s.len(),
{
    if s.len() == 0 {
    } else if s.last().start <= x.start {
    } else {
        let t = s.drop_last();
        assert(sorted_by_start(t)) by {
            assert forall|i: int, j: int| 0 <= i <= j < t.len() implies (#[trigger] t[i]).start <= (
            #[trigger] t[j]).start by {
                assert(s[i] == t[i] && s[j] == t[j]);
            }
        }
        lemma_insert_by_start_sorted(t, x);
        lemma_insert_by_start_elems(t, x);
        let r = insert_by_start(t, x);
        assert forall|i: int, j: int|
            0 <= i <= j < r.push(s.last()).len() implies (#[trigger] r.push(s.last())[i]).start <= (
        #[trigger] r.push(s.last())[j]).start by {
            if j < r.len() {
                assert(r.push(s.last())[i] == r[i] && r.push(s.last())[j] == r[j]);
            } else {
                assert(r.push(s.last())[j] == s.last());
                if i < r.len() {
                    assert(r.push(s.last())[i] == r[i]);
                    if r[i] == x {
                        assert(x.start <= s.last().start);
                    } else {
                        let k = choose|k: int| 0 <= k < t.len() && t[k] == r[i];
                        assert(s[k] == t[k]);
                        assert(s[k].start <= s.last().start);
                    }
                }
            }
        }
    }
}

/// The sorted image of any sequence is sorted: every produced line obeys
/// the order the renderer expects.
pub proof fn lemma_sort_by_start_sorted(s: Seq<Highlight>)
    ensures
        sorted_by_start(sort_by_start(s)),
    decreases s.len(),
{
    if s.len() == 0 {
    } else {
        lemma_sort_by_start_sorted(s.drop_last());
        lemma_insert_by_start_sorted(sort_by_start(s.drop_last()), s.last());
    }
}

/// Stable insertion neither drops nor merges: as a multiset, the result
/// is the input plus the inserted element.
proof fn lemma_insert_by_start_multiset(s: Seq<Highlight>, x: Highlight)
    ensures
        insert_by_start(s, x).to_multiset() == s.to_multiset().insert(x),
    decreases s.len(),
{
    broadcast use vstd::seq_lib::group_to_multiset_ensures;

    if s.len() == 0 {
        assert(seq![x] =~= Seq::<Highlight>::empty().push(x));
        assert(s.to_multiset() =~= Multiset::<Highlight>::empty()) by {
            assert forall|a: Highlight| s.to_multiset().count(a) == 0 by {
                assert(!s.contains(a));
            }
        }
        assert(insert_by_start(s, x).to_multiset() =~= s.to_multiset().insert(x));
    } else if s.last().start <= x.start {
    } else {
        let t = s.drop_last();
        lemma_insert_by_start_multiset(t, x);
        assert(s =~= t.push(s.last()));
        assert(insert_by_start(s, x).to_multiset() =~= t.to_multiset().insert(x).insert(s.last()));
        assert(s.to_multiset() =~= t.to_multiset().insert(s.last()));
        assert(t.to_multiset().insert(x).insert(s.last()) =~= t.to_multiset().insert(
            s.last(),
        ).insert(x));
    }
}

/// Sorting a line never drops, merges, or invents highlights: as a
/// multiset, the sorted line is exactly what was recorded for it.
pub proof fn lemma_sort_by_start_multiset(s: Seq<Highlight>)
    ensures
        sort_by_start(s).to_multiset() == s.to_multiset(),
    decreases s.len(),
{
    broadcast use vstd::seq_lib::group_to_multiset_ensures;

    if s.len() == 0 {
    } else {
        let t = s.drop_last();
        lemma_sort_by_start_multiset(t);
        lemma_insert_by_start_multiset(sort_by_start(t), s.last());
        assert(s =~= t.push(s.last()));
        assert(sort_by_start(s).to_multiset() =~= sort_by_start(t).to_multiset().insert(s.last()));
        assert(s.to_multiset() =~= t.to_multiset().insert(s.last()));
    }
}

/// Where the scan of the exec insertion stops is exactly where the spec
/// insertion puts the element.
proof fn lemma_insert_by_start_at(s: Seq<Highlight>, x: Highlight, j: int)
    requires
        0 <= j <= s.len(),
        forall|k: int| j <= k < s.len() ==> (#[trigger] s[k]).start > x.start,
        j > 0 ==> s[j - 1].start <= x.start,
    ensures
        insert_by_start(s, x) == s.insert(j, x),
    decreases s.len(),
{
    if j == s.len() {
        if s.len() == 0 {
            assert(insert_by_start(s, x) =~= s.insert(j, x));
        } else {
            assert(s.last().start <= x.start);
            assert(s.insert(j, x) =~= s.push(x));
        }
    } else {
        assert(s[s.len() - 1].start > x.start);
        let t = s.drop_last();
        assert(j > 0 ==> t[j - 1] == s[j - 1]);
        assert forall|k: int| j <= k < t.len() implies (#[trigger] t[k]).start > x.start by {
            assert(t[k] == s[k]);
        }
        lemma_insert_by_start_at(t, x, j);
        assert(t.insert(j, x).push(s.last()) =~= s.insert(j, x));
    }
}

/// Inserts `x` into a line already sorted by start column, after every
/// element whose start column is at most `x`'s.
pub fn insert_highlight(v: &mut Vec<Highlight>, x: Highlight)
    ensures
        final(v)@ == insert_by_start(old(v)@, x),
{
    let mut j: usize = v.len();
    while j > 0 && v[j - 1].start > x.start
        invariant
            j <= v.len(),
            v@ == old(v)@,
            forall|k: int| j <= k < v@.len() ==> (#[trigger] v@[k]).start > x.start,
        decreases j,
    {
        j = j - 1;
    }
    proof {
        lemma_insert_by_start_at(v@, x, j as int);
    }
    v.insert(j, x);
}

/// Sorts one line's highlights by start column, stably: equal start
/// columns keep their discovery order.
pub fn sort_highlights(v: &Vec<Highlight>) -> (r: Vec<Highlight>)
    ensures
        r@ == sort_by_start(v@),
        sorted_by_start(r@),
{
    let mut r: Vec<Highlight> = Vec::new();
    let mut i: usize = 0;
    while i < v.len()
        invariant
            i <= v.len(),
            r@ == sort_by_start(v@.subrange(0, i as int)),
        decreases v.len() - i,
    {
        insert_highlight(&mut r, v[i]);
        proof {
            let pre = v@.subrange(0, i as int);
            let cur = v@.subrange(0, i + 1);
            assert(cur.drop_last() =~= pre);
            assert(cur.last() == v@[i as int]);
        }
        i = i + 1;
    }
    proof {
        assert(v@.subrange(0, v@.len() as int) =~= v@);
        lemma_sort_by_start_sorted(v@);
    }
    r
}

/// A line no highlight sits on is filtered to nothing.
proof fn lemma_line_filter_absent(s: Seq<Placed>, l: usize)
    requires
        !has_line(s, l),
    ensures
        line_filter(s, l) == Seq::<Highlight>::empty(),
    decreases s.len(),
{
    if s.len() > 0 {
        let t = s.drop_last();
        assert(!has_line(t, l)) by {
            if has_line(t, l) {
                let k = choose|k: int| 0 <= k < t.len() && (#[trigger] t[k]).line == l;
                assert(s[k].line == l);
            }
        }
        assert(s.last().line != l) by {
            assert(s[s.len() - 1] == s.last());
        }
        lemma_line_filter_absent(t, l);
    }
}

/// Groups raw highlights by source line in discovery order, then sorts
/// each line by start column, stably. No deduplication and no overlap
/// resolution takes place: everything recorded appears in the result.
pub fn aggregate(raw: &Vec<Placed>) -> (r: SyntaxInfo)
    ensures
        r.wf(),
        forall|l: usize| #[trigger] r.contains_line(l) <==> has_line(raw@, l),
        forall|i: int|
            0 <= i < r.lines@.len() ==> (#[trigger] r.lines@[i]).highlights@ == sort_by_start(
                line_filter(raw@, r.lines@[i].line),
            ),
        forall|i: int|
            0 <= i < r.lines@.len() ==> sorted_by_start((#[trigger] r.lines@[i]).highlights@),
{
    let mut lines: Vec<LineSyntax> = Vec::new();
    let mut k: usize = 0;
    while k < raw.len()
        invariant
            k <= raw.len(),
            forall|i: int, j: int|
                0 <= i < j < lines@.len() ==> (#[trigger] lines@[i]).line != (
                #[trigger] lines@[j]).line,
            forall|l: usize| #[trigger]
                has_line(raw@.subrange(0, k as int), l) <==> exists|i: int|
                    0 <= i < lines@.len() && (#[trigger] lines@[i]).line == l,
            forall|i: int|
                0 <= i < lines@.len() ==> (#[trigger] lines@[i]).highlights@ == line_filter(
                    raw@.subrange(0, k as int),
                    lines@[i].line,
                ),
        decreases raw.len() - k,
    {
        let ghost t = raw@.subrange(0, k as int);
        let ghost q = raw@.subrange(0, k as int + 1);
        let p = raw[k];
        proof {
            assert(q.drop_last() =~= t);
            assert(q.last() == p);
            assert(q[q.len() - 1] == p);
        }
        let h = Highlight { start: p.start, end: p.end, color: p.color };
        let mut idx: usize = 0;
        while idx < lines.len() && lines[idx].line != p.line
            invariant
                idx <= lines.len(),
                forall|j: int| 0 <= j < idx ==> (#[trigger] lines@[j]).line != p.line,
            decreases lines.len() - idx,
        {
            idx = idx + 1;
        }
        if idx < lines.len() {
            let ghost before = lines@;
            let mut ls = lines.remove(idx);
            ls.highlights.push(h);
            lines.insert(idx, ls);
            proof {
                assert(lines@ =~= before.update(idx as int, ls));
                assert forall|l: usize| #[trigger]
                    has_line(q, l) <==> exists|i: int|
                        0 <= i < lines@.len() && (#[trigger] lines@[i]).line == l by {
                    if has_line(q, l) {
                        let w = choose|w: int| 0 <= w < q.len() && (#[trigger] q[w]).line == l;
                        if w < t.len() {
                            assert(t[w].line == l);
                            assert(has_line(t, l));
                            let i = choose|i: int|
                                0 <= i < before.len() && (#[trigger] before[i]).line == l;
                            assert(lines@[i].line == l);
                        } else {
                            assert(l == p.line);
                            assert(lines@[idx as int].line == l);
                        }
                    }
                    if exists|i: int| 0 <= i < lines@.len() && (#[trigger] lines@[i]).line == l {
                        let i = choose|i: int|
                            0 <= i < lines@.len() && (#[trigger] lines@[i]).line == l;
                        assert(before[i].line == l);
                        assert(has_line(t, l));
                        let w = choose|w: int| 0 <= w < t.len() && (#[trigger] t[w]).line == l;
                        assert(q[w].line == l);
                    }
                }
                assert forall|i: int| 0 <= i < lines@.len() implies (#[trigger] lines@[i]).highlights@
                    == line_filter(q, lines@[i].line) by {
                    if i == idx {
                        assert(lines@[i].highlights@ == line_filter(t, p.line).push(p.hl()));
                    } else {
                        assert(lines@[i] == before[i]);
                        assert(before[i].line != p.line);
                    }
                }
            }
        } else {
            let ghost before = lines@;
            let mut hv: Vec<Highlight> = Vec::new();
            hv.push(h);
            lines.push(LineSyntax { line: p.line, highlights: hv });
            proof {
                assert(!has_line(t, p.line)) by {
                    if has_line(t, p.line) {
                        let i = choose|i: int|
                            0 <= i < before.len() && (#[trigger] before[i]).line == p.line;
                        assert(false);
                    }
                }
                lemma_line_filter_absent(t, p.line);
                assert(lines@[before.len() as int].highlights@ =~= line_filter(q, p.line));
                assert forall|l: usize| #[trigger]
                    has_line(q, l) <==> exists|i: int|
                        0 <= i < lines@.len() && (#[trigger] lines@[i]).line == l by {
                    if has_line(q, l) {
                        let w = choose|w: int| 0 <= w < q.len() && (#[trigger] q[w]).line == l;
                        if w < t.len() {
                            assert(t[w].line == l);
                            assert(has_line(t, l));
                            let i = choose|i: int|
                                0 <= i < before.len() && (#[trigger] before[i]).line == l;
                            assert(lines@[i].line == l);
                        } else {
                            assert(l == p.line);
                            assert(lines@[before.len() as int].line == l);
                        }
                    }
                    if exists|i: int| 0 <= i < lines@.len() && (#[trigger] lines@[i]).line == l {
                        let i = choose|i: int|
                            0 <= i < lines@.len() && (#[trigger] lines@[i]).line == l;
                        if i < before.len() {
                            assert(before[i].line == l);
                            assert(has_line(t, l));
                            let w = choose|w: int| 0 <= w < t.len() && (#[trigger] t[w]).line == l;
                            assert(q[w].line == l);
                        } else {
                            assert(l == p.line);
                            assert(q[q.len() - 1].line == l);
                        }
                    }
                }
                assert forall|i: int| 0 <= i < lines@.len() implies (#[trigger] lines@[i]).highlights@
                    == line_filter(q, lines@[i].line) by {
                    if i < before.len() {
                        assert(lines@[i] == before[i]);
                        assert(before[i].line != p.line) by {
                            assert(forall|j: int|
                                0 <= j < before.len() ==> (#[trigger] before[j]).line != p.line);
                        }
                    }
                }
            }
        }
        k = k + 1;
    }
    proof {
        assert(raw@.subrange(0, raw@.len() as int) =~= raw@);
    }
    let mut sorted: Vec<LineSyntax> = Vec::new();
    let mut i: usize = 0;
    while i < lines.len()
        invariant
            i <= lines.len(),
            sorted@.len() == i,
            forall|j: int| 0 <= j < i ==> (#[trigger] sorted@[j]).line == lines@[j].line,
            forall|j: int|
                0 <= j < i ==> (#[trigger] sorted@[j]).highlights@ == sort_by_start(
                    lines@[j].highlights@,
                ),
            forall|j: int| 0 <= j < i ==> sorted_by_start((#[trigger] sorted@[j]).highlights@),
            forall|i0: int, j0: int|
                0 <= i0 < j0 < lines@.len() ==> (#[trigger] lines@[i0]).line != (
                #[trigger] lines@[j0]).line,
            forall|l: usize| #[trigger]
                has_line(raw@, l) <==> exists|i0: int|
                    0 <= i0 < lines@.len() && (#[trigger] lines@[i0]).line == l,
            forall|i0: int|
                0 <= i0 < lines@.len() ==> (#[trigger] lines@[i0]).highlights@ == line_filter(
                    raw@,
                    lines@[i0].line,
                ),
        decreases lines.len() - i,
    {
        let hs = sort_highlights(&lines[i].highlights);
        sorted.push(LineSyntax { line: lines[i].line, highlights: hs });
        i = i + 1;
    }
    let r = SyntaxInfo { lines: sorted };
    proof {
        assert forall|l: usize| #[trigger] r.contains_line(l) <==> has_line(raw@, l) by {
            if r.contains_line(l) {
                let i0 = choose|i0: int|
                    0 <= i0 < r.lines@.len() && (#[trigger] r.lines@[i0]).line == l;
                assert(lines@[i0].line == l);
            }
            if has_line(raw@, l) {
                let i0 = choose|i0: int|
                    0 <= i0 < lines@.len() && (#[trigger] lines@[i0]).line == l;
                assert(r.lines@[i0].line == l);
            }
        }
    }
    r
}

} // verus!
