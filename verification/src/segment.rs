//! Segment planning: how the bytes still needed are split across workers.

use vstd::prelude::*;
use vstd::arithmetic::div_mod::{lemma_div_non_zero, lemma_fundamental_div_mod, lemma_mod_bound};
use vstd::arithmetic::mul::{
    lemma_mul_inequality, lemma_mul_is_distributive_add_other_way,
    lemma_mul_is_distributive_sub_other_way, lemma_mul_nonnegative,
};

verus! {

/// One contiguous byte range `[start, end]` (both bounds inclusive) of the
/// remote resource, assigned to exactly one download worker.
#[derive(Clone, Copy, PartialEq, Eq, Structural, Debug)]
pub struct Segment {
    pub start: u64,
    pub end: u64,
}

impl Segment {
    /// A segment is well formed when it covers at least one byte and its
    /// exclusive upper bound `end + 1` still fits in a `u64`.
    pub open spec fn wf(self) -> bool {
        self.start <= self.end && self.end < u64::MAX
    }

    /// Number of bytes the segment covers.
    pub open spec fn spec_len(self) -> int {
        self.end - self.start + 1
    }

    /// Number of bytes the segment covers.
    pub fn len(&self) -> (n: u64)
        requires
            self.wf(),
        ensures
            n == self.spec_len(),
    {
        self.end - self.start + 1
    }
}

/// Effective worker count: the requested count, capped at the number of
/// remaining bytes so that every planned segment holds at least one byte.
pub open spec fn plan_eff(existing: int, total: int, count: int) -> int {
    if count <= total - existing {
        count
    } else {
        total - existing
    }
}

/// Baseline segment length: remaining bytes divided evenly among the
/// effective workers; the last segment absorbs the remainder.
pub open spec fn plan_base(existing: int, total: int, count: int) -> int {
    (total - existing) / plan_eff(existing, total, count)
}

/// The planned segmentation of the bytes still needed, `[existing, total - 1]`:
/// empty when nothing remains, else one segment per effective worker, each
/// starting `plan_base` bytes after the previous one, the last one stretched
/// to `total - 1`.
pub open spec fn spec_plan(existing: int, total: int, count: int) -> Seq<Segment> {
    if existing >= total {
        Seq::empty()
    } else {
        let eff = plan_eff(existing, total, count);
        let base = plan_base(existing, total, count);
        Seq::new(
            eff as nat,
            |i: int|
                Segment {
                    start: (existing + i * base) as u64,
                    end: if i == eff - 1 {
                        (total - 1) as u64
                    } else {
                        (existing + (i + 1) * base - 1) as u64
                    },
                },
        )
    }
}

/// What it means for `segs` to partition `[existing, total - 1]`: every
/// segment is well formed, consecutive segments are adjacent (no gap, no
/// overlap), the first starts at `existing`, the last ends at `total - 1`,
/// and the plan is empty exactly when nothing remains.
pub open spec fn valid_plan(segs: Seq<Segment>, existing: int, total: int) -> bool {
    &&& forall|i: int| 0 <= i < segs.len() ==> (#[trigger] segs[i]).wf()
    &&& forall|i: int| 0 < i < segs.len() ==> (#[trigger] segs[i]).start == segs[i - 1].end + 1
    &&& if existing < total {
        &&& segs.len() > 0
        &&& segs[0].start == existing
        &&& segs[segs.len() - 1].end == total - 1
    } else {
        segs.len() == 0
    }
}

/// The division facts the planner rests on: the baseline length is at least
/// one byte and the evenly divided part never exceeds what remains.
proof fn lemma_plan_arith(existing: int, total: int, count: int)
    requires
        0 <= existing < total,
        1 <= count,
    ensures
        1 <= plan_eff(existing, total, count) <= total - existing,
        1 <= plan_base(existing, total, count),
        plan_eff(existing, total, count) * plan_base(existing, total, count) <= total - existing,
{
    let remaining = total - existing;
    let eff = plan_eff(existing, total, count);
    let base = plan_base(existing, total, count);
    lemma_div_non_zero(remaining, eff);
    lemma_fundamental_div_mod(remaining, eff);
    lemma_mod_bound(remaining, eff);
}

/// The planned segmentation is a valid partition of `[existing, total - 1]`.
pub proof fn lemma_plan_valid(existing: int, total: int, count: int)
    requires
        0 <= existing,
        total <= u64::MAX,
        1 <= count,
    ensures
        valid_plan(spec_plan(existing, total, count), existing, total),
{
    if existing < total {
        lemma_plan_arith(existing, total, count);
        let remaining = total - existing;
        let eff = plan_eff(existing, total, count);
        let base = plan_base(existing, total, count);
        let segs = spec_plan(existing, total, count);
        lemma_mul_is_distributive_sub_other_way(base, eff, 1);
        assert forall|i: int| 0 <= i < segs.len() implies (#[trigger] segs[i]).wf() by {
            lemma_mul_nonnegative(i, base);
            lemma_mul_inequality(i, eff - 1, base);
            lemma_mul_inequality(i + 1, eff, base);
            lemma_mul_is_distributive_add_other_way(base, i, 1);
        }
        assert forall|i: int| 0 < i < segs.len() implies (#[trigger] segs[i]).start == segs[i
            - 1].end + 1 by {
            lemma_mul_nonnegative(i - 1, base);
            lemma_mul_inequality(i, eff - 1, base);
            lemma_mul_inequality(i + 1, eff, base);
            lemma_mul_is_distributive_add_other_way(base, i - 1, 1);
        }
        assert(segs[0].start == existing + 0 * base);
    }
}

/// Splits the bytes still needed, `[existing_size, total_size - 1]`, into at
/// most `segment_count` contiguous, non-overlapping segments ordered by
/// `start`, exactly as `spec_plan` describes; empty when the file is already
/// complete.
pub fn plan_segments(existing_size: u64, total_size: u64, segment_count: u64) -> (segs: Vec<
    Segment,
>)
    requires
        1 <= segment_count,
    ensures
        segs@ == spec_plan(existing_size as int, total_size as int, segment_count as int),
        valid_plan(segs@, existing_size as int, total_size as int),
{
    proof {
        lemma_plan_valid(existing_size as int, total_size as int, segment_count as int);
    }
    let mut segs: Vec<Segment> = Vec::new();
    if existing_size >= total_size {
        proof {
            assert(segs@ =~= spec_plan(
                existing_size as int,
                total_size as int,
                segment_count as int,
            ));
        }
        return segs;
    }
    let ghost plan = spec_plan(existing_size as int, total_size as int, segment_count as int);
    let remaining = total_size - existing_size;
    let eff: u64 = if segment_count <= remaining {
        segment_count
    } else {
        remaining
    };
    let base: u64 = remaining / eff;
    proof {
        lemma_plan_arith(existing_size as int, total_size as int, segment_count as int);
    }
    let mut i: u64 = 0;
    while i < eff
        invariant
            0 <= i <= eff,
            existing_size < total_size,
            remaining == total_size - existing_size,
            eff == plan_eff(existing_size as int, total_size as int, segment_count as int),
            base == plan_base(existing_size as int, total_size as int, segment_count as int),
            1 <= base,
            eff * base <= remaining,
            plan == spec_plan(existing_size as int, total_size as int, segment_count as int),
            plan.len() == eff,
            segs@.len() == i,
            forall|j: int| 0 <= j < i ==> segs@[j] == plan[j],
        decreases eff - i,
    {
        proof {
            lemma_mul_nonnegative(i as int, base as int);
            lemma_mul_inequality(i as int, eff - 1, base as int);
            lemma_mul_inequality(i + 1, eff as int, base as int);
            lemma_mul_is_distributive_add_other_way(base as int, i as int, 1);
            lemma_mul_is_distributive_sub_other_way(base as int, eff as int, 1);
        }
        let start = existing_size + i * base;
        let end = if i == eff - 1 {
            total_size - 1
        } else {
            existing_size + (i + 1) * base - 1
        };
        segs.push(Segment { start, end });
        i = i + 1;
    }
    proof {
        assert(segs@ =~= plan);
    }
    segs
}

/// Within an adjacent chain of non-empty segments, every earlier segment
/// ends strictly before a later one starts.
proof fn lemma_chain_increasing(segs: Seq<Segment>, i: int, j: int)
    requires
        forall|k: int| 0 <= k < segs.len() ==> (#[trigger] segs[k]).wf(),
        forall|k: int| 0 < k < segs.len() ==> (#[trigger] segs[k]).start == segs[k - 1].end + 1,
        0 <= i < j < segs.len(),
    ensures
        segs[i].end < segs[j].start,
    decreases j - i,
{
    if j > i + 1 {
        lemma_chain_increasing(segs, i, j - 1);
    }
}

/// The segments of a valid plan are pairwise non-overlapping and ordered by
/// `start`: each one ends strictly before any later one starts.
pub proof fn lemma_plan_disjoint(segs: Seq<Segment>, existing: int, total: int)
    requires
        valid_plan(segs, existing, total),
    ensures
        forall|i: int, j: int|
            0 <= i < j < segs.len() ==> (#[trigger] segs[i]).end < (#[trigger] segs[j]).start,
{
    assert forall|i: int, j: int|
        0 <= i < j < segs.len() implies (#[trigger] segs[i]).end < (#[trigger] segs[j]).start by {
        lemma_chain_increasing(segs, i, j);
    }
}

/// Dropping the first segment of a non-empty valid plan leaves a valid plan
/// for the bytes after it.
pub(crate) proof fn lemma_plan_tail(segs: Seq<Segment>, existing: int, total: int)
    requires
        valid_plan(segs, existing, total),
        existing < total,
    ensures
        segs[0].end < total,
        valid_plan(segs.subrange(1, segs.len() as int), segs[0].end + 1, total),
{
    if segs.len() > 1 {
        lemma_chain_increasing(segs, 0, segs.len() - 1);
    }
    let tail = segs.subrange(1, segs.len() as int);
    assert forall|k: int| 0 < k < tail.len() implies (#[trigger] tail[k]).start == tail[k - 1].end
        + 1 by {
        assert(segs[k + 1].start == segs[k].end + 1);
    }
}

/// Total number of bytes a sequence of segments covers.
pub open spec fn total_planned(segs: Seq<Segment>) -> int
    decreases segs.len(),
{
    if segs.len() == 0 {
        0
    } else {
        segs[0].spec_len() + total_planned(segs.subrange(1, segs.len() as int))
    }
}

/// The segment lengths of a valid plan add up to exactly the number of bytes
/// still needed, `total - existing`.
pub proof fn lemma_plan_sum(segs: Seq<Segment>, existing: int, total: int)
    requires
        valid_plan(segs, existing, total),
        existing <= total,
    ensures
        total_planned(segs) == total - existing,
    decreases segs.len(),
{
    if existing < total {
        lemma_plan_tail(segs, existing, total);
        lemma_plan_sum(segs.subrange(1, segs.len() as int), segs[0].end + 1, total);
    }
}

/// Whether byte offset `b` falls inside one of the segments.
pub open spec fn covered_by(segs: Seq<Segment>, b: int) -> bool {
    exists|i: int| 0 <= i < segs.len() && (#[trigger] segs[i]).start <= b <= segs[i].end
}

/// The union of a valid plan's segments is exactly `[existing, total - 1]`:
/// every segment lies inside that range, and every byte of the range is
/// covered by some segment.
pub proof fn lemma_plan_covers(segs: Seq<Segment>, existing: int, total: int)
    requires
        valid_plan(segs, existing, total),
    ensures
        forall|i: int|
            0 <= i < segs.len() ==> existing <= (#[trigger] segs[i]).start && segs[i].end < total,
        forall|b: int| existing <= b < total ==> #[trigger] covered_by(segs, b),
    decreases segs.len(),
{
    if existing < total {
        lemma_plan_tail(segs, existing, total);
        let tail = segs.subrange(1, segs.len() as int);
        lemma_plan_covers(tail, segs[0].end + 1, total);
        assert forall|i: int|
            0 <= i < segs.len() implies existing <= (#[trigger] segs[i]).start && segs[i].end
            < total by {
            if i > 0 {
                assert(tail[i - 1] == segs[i]);
            }
        }
        assert forall|b: int| existing <= b < total implies #[trigger] covered_by(segs, b) by {
            if b <= segs[0].end {
                assert(segs[0].start <= b <= segs[0].end);
            } else {
                assert(covered_by(tail, b));
                let k = choose|k: int|
                    0 <= k < tail.len() && (#[trigger] tail[k]).start <= b <= tail[k].end;
                assert(segs[k + 1].start <= b <= segs[k + 1].end);
            }
        }
    }
}

} // verus!
