//! The chromosome assembler: aggregates every interval of a chromosome
//! (source side and target side independently), discards the intervals whose
//! aggregate is absent, and sorts the survivors ascending by start with a
//! stable order.

use vstd::prelude::*;

use crate::agg::{ManifestInterval, aggregate, is_aggregate};
use crate::model::{ChromosomeRecord, IntervalRecord, retained_features};

verus! {

/// Intervals in ascending order of `start`.
pub open spec fn sorted_by_start(s: Seq<ManifestInterval>) -> bool {
    forall|i: int, j: int| 0 <= i < j < s.len() ==> s[i].start <= s[j].start
}

/// Inserts `x` after every element whose `start` does not exceed `x.start`:
/// the insertion step of a stable insertion sort.
pub open spec fn stable_insert(s: Seq<ManifestInterval>, x: ManifestInterval) -> Seq<
    ManifestInterval,
>
    decreases s.len(),
{
    if s.len() == 0 {
        seq![x]
    } else if s.last().start <= x.start {
        s.push(x)
    } else {
        stable_insert(s.drop_last(), x).push(s.last())
    }
}

/// Stable insertion sort by `start`: elements are inserted in input order, so
/// elements with equal `start` keep their relative order.
pub open spec fn sort_by_start(s: Seq<ManifestInterval>) -> Seq<ManifestInterval>
    decreases s.len(),
{
    if s.len() == 0 {
        Seq::empty()
    } else {
        stable_insert(sort_by_start(s.drop_last()), s.last())
    }
}

/// Is `w` the sequence of aggregates of the surviving intervals of `ints`, in
/// input order? An interval survives exactly when it retains a feature.
pub open spec fn survivors_match(
    ints: Seq<IntervalRecord>,
    filter: Seq<u64>,
    w: Seq<ManifestInterval>,
) -> bool
    decreases ints.len(),
{
    if ints.len() == 0 {
        w.len() == 0
    } else if retained_features(ints.last().features@, filter).len() == 0 {
        survivors_match(ints.drop_last(), filter, w)
    } else {
        &&& w.len() > 0
        &&& is_aggregate(ints.last(), filter, w.last())
        &&& survivors_match(ints.drop_last(), filter, w.drop_last())
    }
}

/// Is `out` the assembled side for the input intervals `ints`: the aggregates
/// of the surviving intervals, stably sorted by start?
pub open spec fn assembled_side(
    ints: Seq<IntervalRecord>,
    filter: Seq<u64>,
    out: Seq<ManifestInterval>,
) -> bool {
    exists|w: Seq<ManifestInterval>|
        survivors_match(ints, filter, w) && out == sort_by_start(w)
}

/// Is `r` the assembled chromosome for the record `c`: name and bucket size
/// passed through, both interval lists assembled?
pub open spec fn assembled_chrom(
    c: ChromosomeRecord,
    filter: Seq<u64>,
    r: ManifestChromosomeData,
) -> bool {
    &&& r.chrom@ == c.name@
    &&& r.bucket_size == c.bucket_size
    &&& assembled_side(c.source_intervals@, filter, r.source_intervals@)
    &&& assembled_side(c.target_intervals@, filter, r.target_intervals@)
}

/// Every element of `stable_insert(s, x)` is `x` or an element of `s`.
pub proof fn lemma_stable_insert_elems(s: Seq<ManifestInterval>, x: ManifestInterval)
    ensures
        stable_insert(s, x).len() == s.len() + 1,
        forall|k: int|
            0 <= k < stable_insert(s, x).len() ==> stable_insert(s, x)[k] == x || s.contains(
                stable_insert(s, x)[k],
            ),
    decreases s.len(),
{
    if s.len() == 0 {
    } else if s.last().start <= x.start {
        assert forall|k: int| 0 <= k < s.push(x).len() implies s.push(x)[k] == x || s.contains(
            s.push(x)[k],
        ) by {
            if k < s.len() {
                assert(s.push(x)[k] == s[k]);
                assert(s.contains(s[k]));
            }
        }
    } else {
        lemma_stable_insert_elems(s.drop_last(), x);
        let t = stable_insert(s.drop_last(), x);
        assert forall|k: int| 0 <= k < t.push(s.last()).len() implies t.push(s.last())[k] == x
            || s.contains(t.push(s.last())[k]) by {
            if k < t.len() {
                assert(t.push(s.last())[k] == t[k]);
                if t[k] != x {
                    assert(s.drop_last().contains(t[k]));
                    let j = choose|j: int|
                        0 <= j < s.drop_last().len() && s.drop_last()[j] == t[k];
                    assert(s[j] == t[k]);
                    assert(s.contains(t[k]));
                }
            } else {
                assert(t.push(s.last())[k] == s.last());
                assert(s.contains(s.last()));
            }
        }
    }
}

/// Inserting into a sorted sequence keeps it sorted.
pub proof fn lemma_stable_insert_sorted(s: Seq<ManifestInterval>, x: ManifestInterval)
    requires
        sorted_by_start(s),
    ensures
        sorted_by_start(stable_insert(s, x)),
    decreases s.len(),
{
    if s.len() == 0 {
    } else if s.last().start <= x.start {
        assert forall|i: int, j: int| 0 <= i < j < s.push(x).len() implies s.push(x)[i].start
            <= s.push(x)[j].start by {
            if j < s.len() {
            } else {
                if i < s.len() - 1 {
                    assert(s[i].start <= s.last().start);
                }
            }
        }
    } else {
        assert(sorted_by_start(s.drop_last()));
        lemma_stable_insert_sorted(s.drop_last(), x);
        lemma_stable_insert_elems(s.drop_last(), x);
        let t = stable_insert(s.drop_last(), x);
        assert forall|i: int, j: int| 0 <= i < j < t.push(s.last()).len() implies t.push(
            s.last(),
        )[i].start <= t.push(s.last())[j].start by {
            if j < t.len() {
            } else {
                assert(t.push(s.last())[j] == s.last());
                if t[i] == x {
                    assert(x.start < s.last().start);
                } else {
                    assert(s.drop_last().contains(t[i]));
                    let k = choose|k: int|
                        0 <= k < s.drop_last().len() && s.drop_last()[k] == t[i];
                    assert(s[k].start <= s.last().start);
                }
            }
        }
    }
}

/// The result of the stable sort is sorted.
pub proof fn lemma_sort_by_start_sorted(s: Seq<ManifestInterval>)
    ensures
        sorted_by_start(sort_by_start(s)),
    decreases s.len(),
{
    if s.len() == 0 {
    } else {
        lemma_sort_by_start_sorted(s.drop_last());
        lemma_stable_insert_sorted(sort_by_start(s.drop_last()), s.last());
    }
}

/// When all elements from position `p` on start later than `x`, and the one
/// before `p` (if any) does not, inserting at `p` is the stable insertion.
proof fn lemma_stable_insert_at(s: Seq<ManifestInterval>, x: ManifestInterval, p: int)
    requires
        0 <= p <= s.len(),
        forall|k: int| p <= k < s.len() ==> s[k].start > x.start,
        p > 0 ==> s[p - 1].start <= x.start,
    ensures
        stable_insert(s, x) == s.insert(p, x),
    decreases s.len(),
{
    if s.len() == 0 {
        assert(stable_insert(s, x) =~= s.insert(0, x));
    } else if p == s.len() {
        assert(s.last().start <= x.start);
        assert(stable_insert(s, x) =~= s.insert(p, x));
    } else {
        assert(s.last().start > x.start);
        lemma_stable_insert_at(s.drop_last(), x, p);
        assert(stable_insert(s, x) == s.drop_last().insert(p, x).push(s.last()));
        assert(s.drop_last().insert(p, x).push(s.last()) =~= s.insert(p, x));
    }
}

/// Assembles one side of a chromosome: aggregates each interval in order,
/// keeps the survivors, and sorts them stably by start.
fn assemble_side(intervals: &Vec<IntervalRecord>, filter: &Vec<u64>) -> (out: Vec<
    ManifestInterval,
>)
    ensures
        assembled_side(intervals@, filter@, out@),
        sorted_by_start(out@),
{
    let ghost ints = intervals@;
    let ghost filt = filter@;
    let mut out: Vec<ManifestInterval> = Vec::new();
    let ghost mut w: Seq<ManifestInterval> = Seq::empty();
    proof {
        assert(ints.take(0) =~= Seq::<IntervalRecord>::empty());
    }
    let mut i: usize = 0;
    while i < intervals.len()
        invariant
            0 <= i <= ints.len(),
            ints == intervals@,
            filt == filter@,
            survivors_match(ints.take(i as int), filt, w),
            out@ == sort_by_start(w),
            sorted_by_start(out@),
        decreases ints.len() - i,
    {
        let ghost iv = ints[i as int];
        proof {
            assert(ints.take(i as int + 1) =~= ints.take(i as int).push(iv));
            assert(ints.take(i as int + 1).drop_last() =~= ints.take(i as int));
        }
        match aggregate(&intervals[i], filter) {
            Some(m) => {
                let ghost gm = m;
                let mut p: usize = out.len();
                while p > 0 && out[p - 1].start > m.start
                    invariant
                        0 <= p <= out@.len(),
                        forall|k: int| p <= k < out@.len() ==> out@[k].start > gm.start,
                        gm == m,
                        sorted_by_start(out@),
                    decreases p,
                {
                    p = p - 1;
                }
                proof {
                    lemma_stable_insert_at(out@, gm, p as int);
                    let w2 = w.push(gm);
                    assert(w2.drop_last() =~= w);
                    assert(sort_by_start(w2) == stable_insert(sort_by_start(w), gm));
                    lemma_stable_insert_sorted(sort_by_start(w), gm);
                    assert(survivors_match(ints.take(i as int + 1), filt, w2));
                    w = w2;
                }
                out.insert(p, m);
            },
            None => {
                proof {
                    assert(survivors_match(ints.take(i as int + 1), filt, w));
                }
            },
        }
        i = i + 1;
    }
    proof {
        assert(ints.take(ints.len() as int) =~= ints);
    }
    out
}

/// One assembled chromosome of the output manifest.
#[derive(Clone, Debug)]
pub struct ManifestChromosomeData {
    pub chrom: String,
    pub bucket_size: u32,
    pub source_intervals: Vec<ManifestInterval>,
    pub target_intervals: Vec<ManifestInterval>,
}

impl ManifestChromosomeData {
    /// Assembles one chromosome: both interval lists are aggregated,
    /// filtered of absent intervals, and stably sorted by start; the name and
    /// bucket size pass through unchanged.
    pub fn from(data: &ChromosomeRecord, filter: &Vec<u64>) -> (r: Self)
        ensures
            assembled_chrom(*data, filter@, r),
            sorted_by_start(r.source_intervals@),
            sorted_by_start(r.target_intervals@),
    {
        ManifestChromosomeData {
            chrom: data.name.clone(),
            bucket_size: data.bucket_size,
            source_intervals: assemble_side(&data.source_intervals, filter),
            target_intervals: assemble_side(&data.target_intervals, filter),
        }
    }
}

} // verus!
