//! Merging of file extents: contiguous allocated byte ranges discovered in a
//! sparse source file. Two extents are coalesced when the second begins
//! exactly one byte past the end of the first.
use vstd::prelude::*;

use core::ops::Range;

use crate::errors::Error;

verus! {

/// One merge step: fold extent `e` into the accumulated sequence, coalescing
/// it with the last accumulated extent when `e` starts one byte past its end.
pub open spec fn merge_step(acc: Seq<Range<u64>>, e: Range<u64>) -> Seq<Range<u64>> {
    if acc.len() == 0 {
        seq![e]
    } else {
        let p = acc.last();
        if e.start == p.end + 1 {
            acc.drop_last().push(Range { start: p.start, end: e.end })
        } else {
            acc.push(e)
        }
    }
}

/// The merged form of an extent sequence: a left fold of `merge_step`.
pub open spec fn merge_spec(s: Seq<Range<u64>>) -> Seq<Range<u64>>
    decreases s.len(),
{
    if s.len() == 0 {
        Seq::empty()
    } else {
        merge_step(merge_spec(s.drop_last()), s.last())
    }
}

/// Coalesce adjacent extents. The result is exactly `merge_spec` of the input.
pub fn merge_extents(extents: Vec<Range<u64>>) -> (r: Result<Vec<Range<u64>>, Error>)
    ensures
        r matches Ok(m) && m@ == merge_spec(extents@),
{
    let mut merged: Vec<Range<u64>> = Vec::new();
    let n = extents.len();
    for i in 0..n
        invariant
            n == extents.len(),
            merged@ == merge_spec(extents@.take(i as int)),
    {
        let e = Range { start: extents[i].start, end: extents[i].end };
        proof {
            assert(extents@.take(i + 1).drop_last() =~= extents@.take(i as int));
            assert(extents@.take(i + 1).last() == extents@[i as int]);
        }
        if merged.len() == 0 {
            merged.push(e);
            proof {
                assert(merged@ =~= merge_step(merge_spec(extents@.take(i as int)), extents@[i as int]));
            }
        } else {
            let p_start = merged[merged.len() - 1].start;
            let p_end = merged[merged.len() - 1].end;
            if p_end < u64::MAX && e.start == p_end + 1 {
                let last = merged.len() - 1;
                merged[last] = Range { start: p_start, end: e.end };
                proof {
                    let prev = merge_spec(extents@.take(i as int));
                    assert(merged@ =~= prev.drop_last().push(
                        Range { start: prev.last().start, end: extents@[i as int].end },
                    ));
                }
            } else {
                merged.push(e);
            }
        }
    }
    proof {
        assert(extents@.take(n as int) =~= extents@);
    }
    Ok(merged)
}

/// No two consecutive extents can be coalesced any further.
pub open spec fn coalesced(s: Seq<Range<u64>>) -> bool {
    forall|i: int| #![trigger s[i]] 0 <= i && i + 1 < s.len() ==> s[i + 1].start != s[i].end + 1
}

/// Every extent is a valid half-open range.
pub open spec fn well_formed(s: Seq<Range<u64>>) -> bool {
    forall|i: int| 0 <= i < s.len() ==> (#[trigger] s[i]).start <= s[i].end
}

/// Extents are sorted and non-overlapping.
pub open spec fn ordered(s: Seq<Range<u64>>) -> bool {
    forall|i: int| #![trigger s[i]] 0 <= i && i + 1 < s.len() ==> s[i].end <= s[i + 1].start
}

/// Byte position `x` lies inside extent `e`.
pub open spec fn in_extent(e: Range<u64>, x: int) -> bool {
    e.start <= x < e.end
}

/// Byte position `x` lies inside some extent of `s`.
pub open spec fn covered(s: Seq<Range<u64>>, x: int) -> bool {
    exists|i: int| 0 <= i < s.len() && in_extent(#[trigger] s[i], x)
}

proof fn lemma_merge_step_coalesced(acc: Seq<Range<u64>>, e: Range<u64>)
    requires
        coalesced(acc),
    ensures
        coalesced(merge_step(acc, e)),
{
}

proof fn lemma_merge_spec_coalesced(s: Seq<Range<u64>>)
    ensures
        coalesced(merge_spec(s)),
    decreases s.len(),
{
    if s.len() > 0 {
        lemma_merge_spec_coalesced(s.drop_last());
        lemma_merge_step_coalesced(merge_spec(s.drop_last()), s.last());
    }
}

proof fn lemma_merge_spec_identity(s: Seq<Range<u64>>)
    requires
        coalesced(s),
    ensures
        merge_spec(s) == s,
    decreases s.len(),
{
    if s.len() > 0 {
        assert(coalesced(s.drop_last()));
        lemma_merge_spec_identity(s.drop_last());
        if s.len() == 1 {
            assert(merge_spec(s) =~= s);
        } else {
            assert(s.drop_last().last() == s[s.len() - 2]);
            assert(s.last().start != s[s.len() - 2].end + 1);
            assert(merge_spec(s) =~= s);
        }
    }
}

/// Merging is idempotent: merging an already-merged extent sequence changes
/// nothing.
pub proof fn lemma_merge_idempotent(s: Seq<Range<u64>>)
    ensures
        merge_spec(merge_spec(s)) == merge_spec(s),
{
    lemma_merge_spec_coalesced(s);
    lemma_merge_spec_identity(merge_spec(s));
}

/// Merging never loses a byte position: every byte covered by the input
/// extents is covered by the merged extents. (Coalescing two extents that
/// meet one byte apart additionally fills that one-byte gap, so the covered
/// set can only grow.)
pub proof fn lemma_merge_monotone(s: Seq<Range<u64>>, x: int)
    requires
        well_formed(s),
        covered(s, x),
    ensures
        covered(merge_spec(s), x),
    decreases s.len(),
{
    if s.len() > 0 {
        let prefix = s.drop_last();
        let e = s.last();
        let acc = merge_spec(prefix);
        if in_extent(e, x) {
            lemma_merge_last_end(s);
            if acc.len() > 0 && e.start == acc.last().end + 1 {
                assert(well_formed(prefix));
                lemma_merge_wf(prefix);
                let m = merge_step(acc, e);
                assert(acc.last().start <= acc.last().end);
                assert(in_extent(m.last(), x));
            } else {
                let m = merge_step(acc, e);
                assert(in_extent(m.last(), x));
            }
        } else {
            let i = choose|i: int| 0 <= i < s.len() && in_extent(s[i], x);
            assert(0 <= i < prefix.len() && in_extent(prefix[i], x));
            assert(well_formed(prefix));
            lemma_merge_monotone(prefix, x);
            let j = choose|j: int| 0 <= j < acc.len() && in_extent(acc[j], x);
            let m = merge_step(acc, e);
            if acc.len() > 0 && e.start == acc.last().end + 1 {
                lemma_merge_wf(prefix);
                if j == acc.len() - 1 {
                    assert(e.start <= e.end);
                    assert(in_extent(m[m.len() - 1], x));
                } else {
                    assert(m[j] == acc[j]);
                    assert(in_extent(m[j], x));
                }
            } else {
                assert(m[j] == acc[j]);
                assert(in_extent(m[j], x));
            }
        }
    }
}

/// The merged sequence is made of valid ranges whenever the input is.
proof fn lemma_merge_wf(s: Seq<Range<u64>>)
    requires
        well_formed(s),
    ensures
        well_formed(merge_spec(s)),
    decreases s.len(),
{
    if s.len() > 0 {
        assert(well_formed(s.drop_last()));
        lemma_merge_wf(s.drop_last());
        let acc = merge_spec(s.drop_last());
        let e = s.last();
        assert(e.start <= e.end);
        let m = merge_step(acc, e);
        assert forall|i: int| 0 <= i < m.len() implies (#[trigger] m[i]).start <= m[i].end by {
            if acc.len() > 0 && e.start == acc.last().end + 1 {
                if i < m.len() - 1 {
                    assert(m[i] == acc[i]);
                }
            } else if acc.len() > 0 {
                if i < m.len() - 1 {
                    assert(m[i] == acc[i]);
                }
            }
        }
    }
}

/// The merged sequence of a non-empty input is non-empty and ends at the same
/// byte as the input's last extent.
proof fn lemma_merge_last_end(s: Seq<Range<u64>>)
    requires
        s.len() > 0,
    ensures
        merge_spec(s).len() > 0,
        merge_spec(s).last().end == s.last().end,
{
}

/// Merging preserves order: a sorted, non-overlapping input yields a sorted,
/// non-overlapping output with no two extents left adjacent.
pub proof fn lemma_merge_ordered(s: Seq<Range<u64>>)
    requires
        well_formed(s),
        ordered(s),
    ensures
        well_formed(merge_spec(s)),
        ordered(merge_spec(s)),
        coalesced(merge_spec(s)),
    decreases s.len(),
{
    lemma_merge_wf(s);
    lemma_merge_spec_coalesced(s);
    if s.len() > 0 {
        let prefix = s.drop_last();
        let e = s.last();
        assert(well_formed(prefix));
        assert(ordered(prefix));
        lemma_merge_ordered(prefix);
        let acc = merge_spec(prefix);
        let m = merge_step(acc, e);
        if prefix.len() > 0 {
            lemma_merge_last_end(prefix);
            assert(prefix.last() == s[s.len() - 2]);
            assert(acc.last().end == s[s.len() - 2].end);
            assert(s[s.len() - 2].end <= e.start);
            assert forall|i: int| #![trigger m[i]] 0 <= i && i + 1 < m.len() implies m[i].end <= m[i
                + 1].start by {
                if e.start == acc.last().end + 1 {
                    if i + 1 < m.len() - 1 {
                        assert(m[i] == acc[i] && m[i + 1] == acc[i + 1]);
                    } else {
                        assert(m[i] == acc[i]);
                        assert(m[i + 1].start == acc.last().start);
                        assert(acc[i].end <= acc[i + 1].start);
                        assert(acc[i + 1].start <= acc[i + 1].end);
                    }
                } else {
                    if i + 1 < m.len() - 1 {
                        assert(m[i] == acc[i] && m[i + 1] == acc[i + 1]);
                    } else {
                        assert(m[i] == acc[i]);
                    }
                }
            }
        }
    }
}

/// Where no two extents meet one byte apart, merging is the identity, so the
/// union of byte positions is kept exactly.
pub proof fn lemma_merge_union_preserved(s: Seq<Range<u64>>, x: int)
    requires
        coalesced(s),
    ensures
        covered(merge_spec(s), x) == covered(s, x),
{
    lemma_merge_spec_identity(s);
}

/// Byte position `x` is the one-byte gap between two consecutive extents
/// that merging coalesces.
pub open spec fn filled_gap(s: Seq<Range<u64>>, x: int) -> bool {
    exists|i: int|
        0 <= i && i + 1 < s.len() && (#[trigger] s[i]).end == x && s[i + 1].start == x + 1
}

proof fn lemma_covered_push(t: Seq<Range<u64>>, e: Range<u64>, x: int)
    ensures
        covered(t.push(e), x) == (covered(t, x) || in_extent(e, x)),
{
    if covered(t, x) {
        let i = choose|i: int| 0 <= i < t.len() && in_extent(#[trigger] t[i], x);
        assert(t.push(e)[i] == t[i]);
        assert(covered(t.push(e), x));
    }
    if in_extent(e, x) {
        assert(t.push(e)[t.len() as int] == e);
        assert(covered(t.push(e), x));
    }
    if covered(t.push(e), x) {
        let i = choose|i: int| 0 <= i < t.push(e).len() && in_extent(#[trigger] t.push(e)[i], x);
        if i < t.len() {
            assert(t[i] == t.push(e)[i]);
            assert(covered(t, x));
        } else {
            assert(t.push(e)[i] == e);
        }
    }
}

proof fn lemma_gap_push(t: Seq<Range<u64>>, e: Range<u64>, x: int)
    ensures
        filled_gap(t.push(e), x) == (filled_gap(t, x) || (t.len() > 0 && t.last().end == x
            && e.start == x + 1)),
{
    let u = t.push(e);
    if filled_gap(t, x) {
        let i = choose|i: int|
            0 <= i && i + 1 < t.len() && (#[trigger] t[i]).end == x && t[i + 1].start == x + 1;
        assert(u[i] == t[i] && u[i + 1] == t[i + 1]);
        assert(filled_gap(u, x));
    }
    if t.len() > 0 && t.last().end == x && e.start == x + 1 {
        let i = t.len() - 1;
        assert(u[i] == t.last() && u[i + 1] == e);
        assert(filled_gap(u, x));
    }
    if filled_gap(u, x) {
        let i = choose|i: int|
            0 <= i && i + 1 < u.len() && (#[trigger] u[i]).end == x && u[i + 1].start == x + 1;
        if i + 1 < t.len() {
            assert(u[i] == t[i] && u[i + 1] == t[i + 1]);
            assert(filled_gap(t, x));
        } else {
            assert(i + 1 == t.len());
            assert(u[i] == t[i] && t[i] == t.last());
            assert(u[i + 1] == e);
        }
    }
}

/// Exactly which byte positions the merged extents cover: every position the
/// input covers, plus the one-byte gaps between consecutive extents that
/// merging coalesces, and nothing else. Merging two extents that meet one
/// byte apart adds that byte, so the unions differ exactly by the filled
/// gaps.
pub proof fn lemma_merge_union_exact(s: Seq<Range<u64>>, x: int)
    requires
        well_formed(s),
    ensures
        covered(merge_spec(s), x) == (covered(s, x) || filled_gap(s, x)),
    decreases s.len(),
{
    if s.len() == 0 {
        assert(!covered(merge_spec(s), x));
        assert(!covered(s, x));
        assert(!filled_gap(s, x));
    } else {
        let prefix = s.drop_last();
        let e = s.last();
        assert(s =~= prefix.push(e));
        assert(well_formed(prefix));
        lemma_merge_union_exact(prefix, x);
        lemma_merge_wf(prefix);
        lemma_covered_push(prefix, e, x);
        lemma_gap_push(prefix, e, x);
        let acc = merge_spec(prefix);
        let m = merge_step(acc, e);
        if acc.len() == 0 {
            if prefix.len() > 0 {
                lemma_merge_last_end(prefix);
            }
            assert(prefix.len() == 0);
            assert(m =~= Seq::<Range<u64>>::empty().push(e));
            lemma_covered_push(Seq::<Range<u64>>::empty(), e, x);
            assert(!covered(Seq::<Range<u64>>::empty(), x));
        } else {
            lemma_merge_last_end(prefix);
            assert(prefix.len() > 0);
            let p = acc.last();
            assert(p.end == prefix.last().end);
            assert(acc =~= acc.drop_last().push(p));
            lemma_covered_push(acc.drop_last(), p, x);
            if e.start == p.end + 1 {
                let joined = Range { start: p.start, end: e.end };
                assert(m =~= acc.drop_last().push(joined));
                lemma_covered_push(acc.drop_last(), joined, x);
                assert(p.start <= p.end);
                assert(e.start <= e.end);
                assert(in_extent(joined, x) == (in_extent(p, x) || x == p.end || in_extent(e, x)));
            } else {
                assert(m =~= acc.push(e));
                lemma_covered_push(acc, e, x);
            }
        }
    }
}

/// The blocks of at most `bs` bytes that cover `[start, end)`, in ascending
/// order, each full except possibly the last.
pub open spec fn split_spec(start: u64, end: u64, bs: u64) -> Seq<Range<u64>>
    decreases end - start when bs > 0
{
    if start >= end {
        Seq::empty()
    } else if end - start <= bs {
        seq![Range { start, end }]
    } else {
        seq![Range { start, end: (start + bs) as u64 }] + split_spec((start + bs) as u64, end, bs)
    }
}

/// The block decomposition of a whole extent list: each extent split into
/// blocks of at most `bs` bytes, in input order.
pub open spec fn plan_spec(s: Seq<Range<u64>>, bs: u64) -> Seq<Range<u64>>
    decreases s.len(),
{
    if s.len() == 0 {
        Seq::empty()
    } else {
        plan_spec(s.drop_last(), bs) + split_spec(s.last().start, s.last().end, bs)
    }
}

/// Split one extent into blocks of at most `block_size` bytes.
fn split_extent(start: u64, end: u64, block_size: u64) -> (r: Vec<Range<u64>>)
    requires
        block_size > 0,
    ensures
        r@ == split_spec(start, end, block_size),
{
    let mut v: Vec<Range<u64>> = Vec::new();
    let mut pos = start;
    while pos < end
        invariant
            block_size > 0,
            split_spec(start, end, block_size) == v@ + split_spec(pos, end, block_size),
        decreases end - pos,
    {
        if end - pos <= block_size {
            v.push(Range { start: pos, end });
            proof {
                assert(split_spec(start, end, block_size) =~= v@ + split_spec(
                    end,
                    end,
                    block_size,
                ));
            }
            pos = end;
        } else {
            let next = pos + block_size;
            v.push(Range { start: pos, end: next });
            proof {
                assert(split_spec(start, end, block_size) =~= v@ + split_spec(
                    next,
                    end,
                    block_size,
                ));
            }
            pos = next;
        }
    }
    proof {
        assert(v@ =~= v@ + split_spec(pos, end, block_size));
    }
    v
}

/// Decompose extents into block-sized copy operations, in ascending offset
/// order. The result is exactly `plan_spec` of the input.
pub fn plan_blocks(extents: &Vec<Range<u64>>, block_size: u64) -> (r: Vec<Range<u64>>)
    requires
        block_size > 0,
    ensures
        r@ == plan_spec(extents@, block_size),
{
    let mut blocks: Vec<Range<u64>> = Vec::new();
    let n = extents.len();
    for i in 0..n
        invariant
            n == extents@.len(),
            block_size > 0,
            blocks@ == plan_spec(extents@.take(i as int), block_size),
    {
        let mut piece = split_extent(extents[i].start, extents[i].end, block_size);
        proof {
            assert(extents@.take(i + 1).drop_last() =~= extents@.take(i as int));
            assert(extents@.take(i + 1).last() == extents@[i as int]);
        }
        let m = piece.len();
        for j in 0..m
            invariant
                m == piece@.len(),
                blocks@ == plan_spec(extents@.take(i as int), block_size) + piece@.take(j as int),
                piece@ == split_spec(extents@[i as int].start, extents@[i as int].end, block_size),
                i < n == extents@.len(),
                block_size > 0,
        {
            blocks.push(Range { start: piece[j].start, end: piece[j].end });
            proof {
                assert(piece@.take(j + 1) =~= piece@.take(j as int).push(piece@[j as int]));
                assert(blocks@ =~= plan_spec(extents@.take(i as int), block_size) + piece@.take(
                    j + 1,
                ));
            }
        }
        proof {
            assert(piece@.take(m as int) =~= piece@);
            assert(blocks@ =~= plan_spec(extents@.take(i + 1), block_size));
        }
    }
    proof {
        assert(extents@.take(n as int) =~= extents@);
    }
    blocks
}

/// Consecutive extents are all adjacent: each starts one byte past the
/// previous one's end.
pub open spec fn all_adjacent(s: Seq<Range<u64>>) -> bool {
    forall|i: int| #![trigger s[i]] 0 <= i && i + 1 < s.len() ==> s[i + 1].start == s[i].end + 1
}

/// Merging keeps a non-empty input non-empty, never lengthens the sequence,
/// and keeps the first extent's start and the last extent's end.
pub proof fn lemma_merge_shape(s: Seq<Range<u64>>)
    requires
        s.len() > 0,
    ensures
        merge_spec(s).len() > 0,
        merge_spec(s).len() <= s.len(),
        merge_spec(s).first().start == s.first().start,
        merge_spec(s).last().end == s.last().end,
    decreases s.len(),
{
    lemma_merge_last_end(s);
    if s.len() > 1 {
        lemma_merge_shape(s.drop_last());
        let acc = merge_spec(s.drop_last());
        let e = s.last();
        let m = merge_step(acc, e);
        if e.start == acc.last().end + 1 {
            if acc.len() == 1 {
                assert(m.first() == m[0]);
            } else {
                assert(m.first() == acc.first());
            }
        } else {
            assert(m.first() == acc.first());
        }
        assert(s.drop_last().first() == s.first());
    }
}

/// A run of consecutively adjacent extents merges into the single extent
/// from the run's first start to its last end.
pub proof fn lemma_merge_adjacent_run(s: Seq<Range<u64>>)
    requires
        s.len() > 0,
        all_adjacent(s),
    ensures
        merge_spec(s) == seq![Range { start: s.first().start, end: s.last().end }],
    decreases s.len(),
{
    if s.len() == 1 {
        assert(merge_spec(s.drop_last()) =~= Seq::<Range<u64>>::empty());
        assert(merge_spec(s) == merge_step(Seq::<Range<u64>>::empty(), s.last()));
        assert(merge_spec(s) =~= seq![Range { start: s.first().start, end: s.last().end }]);
    } else {
        let prefix = s.drop_last();
        assert(all_adjacent(prefix));
        assert(prefix.first() == s.first());
        lemma_merge_adjacent_run(prefix);
        let acc = merge_spec(prefix);
        assert(prefix.last() == s[s.len() - 2]);
        assert(s.last().start == s[s.len() - 2].end + 1);
        assert(acc.last() == Range { start: s.first().start, end: prefix.last().end });
        assert(s.last().start == acc.last().end + 1);
        assert(merge_spec(s) == acc.drop_last().push(
            Range { start: acc.last().start, end: s.last().end },
        ));
        assert(acc.drop_last() =~= Seq::<Range<u64>>::empty());
        assert(merge_spec(s) =~= seq![Range { start: s.first().start, end: s.last().end }]);
    }
}

/// Merging splits at a non-adjacent boundary: the two halves merge
/// independently and the results stand side by side. Together with
/// `lemma_merge_adjacent_run` this characterizes merging exactly: cutting
/// the input at every non-adjacent boundary yields its maximal runs of
/// consecutively adjacent extents, and each run becomes the one output
/// extent from the run's first start to its last end, in input order.
pub proof fn lemma_merge_concat(a: Seq<Range<u64>>, b: Seq<Range<u64>>)
    requires
        a.len() > 0 && b.len() > 0 ==> b.first().start != a.last().end + 1,
    ensures
        merge_spec(a + b) == merge_spec(a) + merge_spec(b),
    decreases b.len(),
{
    if b.len() == 0 {
        assert(a + b =~= a);
        assert(merge_spec(a) + merge_spec(b) =~= merge_spec(a));
    } else if a.len() == 0 {
        assert(a + b =~= b);
        assert(merge_spec(a) + merge_spec(b) =~= merge_spec(b));
    } else {
        let bp = b.drop_last();
        assert((a + b).drop_last() =~= a + bp);
        assert((a + b).last() == b.last());
        if bp.len() > 0 {
            assert(bp.first() == b.first());
        }
        lemma_merge_concat(a, bp);
        let ma = merge_spec(a);
        let mbp = merge_spec(bp);
        lemma_merge_last_end(a);
        assert(merge_spec(a + b) == merge_step(ma + mbp, b.last()));
        if bp.len() == 0 {
            assert(ma + mbp =~= ma);
            assert(b.last().start != ma.last().end + 1);
            assert(merge_step(ma, b.last()) =~= ma.push(b.last()));
            assert(merge_spec(b) =~= Seq::<Range<u64>>::empty().push(b.last()));
            assert(merge_step(Seq::<Range<u64>>::empty(), b.last()) =~= seq![b.last()]);
            assert(ma + merge_spec(b) =~= ma.push(b.last()));
        } else {
            lemma_merge_last_end(bp);
            let acc = ma + mbp;
            assert(acc.last() == mbp.last());
            assert(merge_spec(b) == merge_step(mbp, b.last()));
            if b.last().start == mbp.last().end + 1 {
                let joined = Range { start: mbp.last().start, end: b.last().end };
                assert(merge_step(acc, b.last()) =~= acc.drop_last().push(joined));
                assert(merge_step(mbp, b.last()) =~= mbp.drop_last().push(joined));
                assert(acc.drop_last() =~= ma + mbp.drop_last());
                assert(acc.drop_last().push(joined) =~= ma + mbp.drop_last().push(joined));
            } else {
                assert(merge_step(acc, b.last()) =~= acc.push(b.last()));
                assert(merge_step(mbp, b.last()) =~= mbp.push(b.last()));
                assert(acc.push(b.last()) =~= ma + mbp.push(b.last()));
            }
        }
    }
}

proof fn lemma_covered_concat(a: Seq<Range<u64>>, b: Seq<Range<u64>>, x: int)
    ensures
        covered(a + b, x) == (covered(a, x) || covered(b, x)),
{
    let u = a + b;
    if covered(a, x) {
        let i = choose|i: int| 0 <= i < a.len() && in_extent(#[trigger] a[i], x);
        assert(u[i] == a[i]);
        assert(covered(u, x));
    }
    if covered(b, x) {
        let i = choose|i: int| 0 <= i < b.len() && in_extent(#[trigger] b[i], x);
        assert(u[a.len() + i] == b[i]);
        assert(covered(u, x));
    }
    if covered(u, x) {
        let i = choose|i: int| 0 <= i < u.len() && in_extent(#[trigger] u[i], x);
        if i < a.len() {
            assert(a[i] == u[i]);
            assert(covered(a, x));
        } else {
            assert(b[i - a.len()] == u[i]);
            assert(covered(b, x));
        }
    }
}

/// Splitting an extent into blocks covers exactly the extent's own bytes.
pub proof fn lemma_split_covered(start: u64, end: u64, bs: u64, x: int)
    requires
        bs > 0,
    ensures
        covered(split_spec(start, end, bs), x) == (start <= x < end),
    decreases end - start,
{
    if start >= end {
    } else if end - start <= bs {
        let s = split_spec(start, end, bs);
        if start <= x < end {
            assert(in_extent(s[0], x));
            assert(covered(s, x));
        }
        if covered(s, x) {
            let i = choose|i: int| 0 <= i < s.len() && in_extent(#[trigger] s[i], x);
            assert(i == 0);
        }
    } else {
        let mid = (start + bs) as u64;
        lemma_split_covered(mid, end, bs, x);
        let first = seq![Range { start, end: mid }];
        let rest = split_spec(mid, end, bs);
        lemma_covered_concat(first, rest, x);
        if start <= x < mid {
            assert(in_extent(first[0], x));
            assert(covered(first, x));
        }
        if covered(first, x) {
            let i = choose|i: int| 0 <= i < first.len() && in_extent(#[trigger] first[i], x);
            assert(i == 0);
        }
    }
}

/// The planned blocks cover exactly the bytes the extents cover: the
/// decomposition loses nothing and invents nothing.
pub proof fn lemma_plan_covered(s: Seq<Range<u64>>, bs: u64, x: int)
    requires
        bs > 0,
    ensures
        covered(plan_spec(s, bs), x) == covered(s, x),
    decreases s.len(),
{
    if s.len() > 0 {
        let prefix = s.drop_last();
        let e = s.last();
        lemma_plan_covered(prefix, bs, x);
        lemma_split_covered(e.start, e.end, bs, x);
        lemma_covered_concat(plan_spec(prefix, bs), split_spec(e.start, e.end, bs), x);
        assert(s =~= prefix.push(e));
        lemma_covered_push(prefix, e, x);
    }
}

/// The shape of one extent's blocks: valid, sorted, inside the extent, and
/// running from its first byte to its last.
proof fn lemma_split_shape(start: u64, end: u64, bs: u64)
    requires
        bs > 0,
        start <= end,
    ensures
        well_formed(split_spec(start, end, bs)),
        ordered(split_spec(start, end, bs)),
        forall|i: int| 0 <= i < split_spec(start, end, bs).len() ==> start <= (#[trigger] split_spec(
            start,
            end,
            bs,
        )[i]).start && split_spec(start, end, bs)[i].end <= end,
        start < end ==> split_spec(start, end, bs).len() > 0 && split_spec(start, end, bs)[0].start
            == start && split_spec(start, end, bs).last().end == end,
    decreases end - start,
{
    if start >= end {
    } else if end - start <= bs {
    } else {
        let mid = (start + bs) as u64;
        lemma_split_shape(mid, end, bs);
        let first = seq![Range { start, end: mid }];
        let rest = split_spec(mid, end, bs);
        let whole = first + rest;
        assert(whole.last() == rest.last());
        assert forall|i: int| #![trigger whole[i]] 0 <= i < whole.len() implies whole[i].start
            <= whole[i].end && start <= whole[i].start && whole[i].end <= end && (i + 1 < whole.len()
            ==> whole[i].end <= whole[i + 1].start) by {
            if i > 0 {
                assert(whole[i] == rest[i - 1]);
            }
            if 0 < i + 1 < whole.len() {
                assert(whole[i + 1] == rest[i]);
            }
        }
    }
}

/// The planned blocks of sorted, valid extents are themselves valid, sorted
/// and non-overlapping, and end no later than the last extent: two distinct
/// blocks never touch the same byte, so block copies may run concurrently.
pub proof fn lemma_plan_ordered(s: Seq<Range<u64>>, bs: u64)
    requires
        bs > 0,
        well_formed(s),
        ordered(s),
    ensures
        well_formed(plan_spec(s, bs)),
        ordered(plan_spec(s, bs)),
        s.len() > 0 ==> bounded(plan_spec(s, bs), s.last().end),
    decreases s.len(),
{
    if s.len() > 0 {
        let prefix = s.drop_last();
        let e = s.last();
        assert(well_formed(prefix));
        assert(ordered(prefix));
        lemma_plan_ordered(prefix, bs);
        assert(e.start <= e.end);
        lemma_split_shape(e.start, e.end, bs);
        let left = plan_spec(prefix, bs);
        let right = split_spec(e.start, e.end, bs);
        let whole = left + right;
        if prefix.len() > 0 {
            assert(prefix.last() == s[s.len() - 2]);
            assert(prefix.last().end <= e.start);
        }
        assert forall|i: int| #![trigger whole[i]] 0 <= i < whole.len() implies whole[i].start
            <= whole[i].end && whole[i].end <= e.end && (i + 1 < whole.len() ==> whole[i].end
            <= whole[i + 1].start) by {
            if i < left.len() {
                assert(whole[i] == left[i]);
                assert(left[i].end <= prefix.last().end);
                if i + 1 < left.len() {
                    assert(whole[i + 1] == left[i + 1]);
                } else if i + 1 < whole.len() {
                    assert(whole[i + 1] == right[0]);
                    assert(right[0].start == e.start);
                }
            } else {
                assert(whole[i] == right[i - left.len()]);
                if i + 1 < whole.len() {
                    assert(whole[i + 1] == right[i + 1 - left.len()]);
                }
            }
        }
    }
}

/// Every extent lies inside the first `len` bytes of the file.
pub open spec fn bounded(s: Seq<Range<u64>>, len: u64) -> bool {
    forall|i: int| 0 <= i < s.len() ==> (#[trigger] s[i]).end <= len
}

} // verus!
