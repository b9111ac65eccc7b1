//! The global stats collector: dataset-wide distinct-id counts over the
//! assembled (already filtered) chromosomes.

use vstd::prelude::*;

use crate::agg::{ManifestInterval, feature_id_set, reo_id_set, strictly_sorted};
use crate::assemble::{
    ManifestChromosomeData, assembled_chrom, assembled_side, sort_by_start, stable_insert,
    survivors_match,
};
use crate::model::{
    ChromosomeRecord, FeatureGroup, IntervalRecord, Observation, contrib_obs, contrib_per_feature,
    feature_ids, reo_ids, retained_features,
};

verus! {

/// The REO ids of a list of assembled intervals, as one set.
pub open spec fn intervals_reo_union(s: Seq<ManifestInterval>) -> Set<u64>
    decreases s.len(),
{
    if s.len() == 0 {
        Set::empty()
    } else {
        intervals_reo_union(s.drop_last()).union(s.last().reos@.to_set())
    }
}

/// The feature ids of a list of assembled intervals, as one set.
pub open spec fn intervals_feature_union(s: Seq<ManifestInterval>) -> Set<u64>
    decreases s.len(),
{
    if s.len() == 0 {
        Set::empty()
    } else {
        intervals_feature_union(s.drop_last()).union(s.last().features@.to_set())
    }
}

/// The REO ids of all retained intervals, source and target sides, of all
/// chromosomes.
pub open spec fn chroms_reo_union(cs: Seq<ManifestChromosomeData>) -> Set<u64>
    decreases cs.len(),
{
    if cs.len() == 0 {
        Set::empty()
    } else {
        chroms_reo_union(cs.drop_last()).union(
            intervals_reo_union(cs.last().source_intervals@),
        ).union(intervals_reo_union(cs.last().target_intervals@))
    }
}

/// The feature ids of all retained source intervals of all chromosomes.
pub open spec fn chroms_source_union(cs: Seq<ManifestChromosomeData>) -> Set<u64>
    decreases cs.len(),
{
    if cs.len() == 0 {
        Set::empty()
    } else {
        chroms_source_union(cs.drop_last()).union(
            intervals_feature_union(cs.last().source_intervals@),
        )
    }
}

/// The feature ids of all retained target intervals of all chromosomes.
pub open spec fn chroms_target_union(cs: Seq<ManifestChromosomeData>) -> Set<u64>
    decreases cs.len(),
{
    if cs.len() == 0 {
        Set::empty()
    } else {
        chroms_target_union(cs.drop_last()).union(
            intervals_feature_union(cs.last().target_intervals@),
        )
    }
}

/// Merges a strictly sorted id list into the strictly sorted accumulator.
fn merge_ids(acc: &mut Vec<u64>, ids: &Vec<u64>)
    requires
        strictly_sorted(old(acc)@),
    ensures
        strictly_sorted(final(acc)@),
        final(acc)@.to_set() == old(acc)@.to_set().union(ids@.to_set()),
{
    let ghost base = old(acc)@.to_set();
    proof {
        assert(ids@.take(0) =~= Seq::<u64>::empty());
        assert(base.union(ids@.take(0).to_set()) =~= base);
    }
    let mut k: usize = 0;
    while k < ids.len()
        invariant
            0 <= k <= ids@.len(),
            strictly_sorted(acc@),
            acc@.to_set() == base.union(ids@.take(k as int).to_set()),
        decreases ids@.len() - k,
    {
        proof {
            assert(ids@.take(k as int + 1) =~= ids@.take(k as int).push(ids@[k as int]));
            ids@.take(k as int).lemma_push_to_set_commute(ids@[k as int]);
            assert(base.union(ids@.take(k as int + 1).to_set()) =~= base.union(
                ids@.take(k as int).to_set(),
            ).insert(ids@[k as int]));
        }
        crate::agg::insert_sorted(acc, ids[k]);
        k = k + 1;
    }
    proof {
        assert(ids@.take(ids@.len() as int) =~= ids@);
    }
}

/// Merges the REO ids of every interval of one side into the accumulator.
fn merge_side_reos(acc: &mut Vec<u64>, side: &Vec<ManifestInterval>)
    requires
        strictly_sorted(old(acc)@),
    ensures
        strictly_sorted(final(acc)@),
        final(acc)@.to_set() == old(acc)@.to_set().union(intervals_reo_union(side@)),
{
    let ghost base = old(acc)@.to_set();
    proof {
        assert(side@.take(0) =~= Seq::<ManifestInterval>::empty());
        assert(base.union(intervals_reo_union(side@.take(0))) =~= base);
    }
    let mut j: usize = 0;
    while j < side.len()
        invariant
            0 <= j <= side@.len(),
            strictly_sorted(acc@),
            acc@.to_set() == base.union(intervals_reo_union(side@.take(j as int))),
        decreases side@.len() - j,
    {
        proof {
            assert(side@.take(j as int + 1) =~= side@.take(j as int).push(side@[j as int]));
            assert(side@.take(j as int + 1).drop_last() =~= side@.take(j as int));
            assert(base.union(intervals_reo_union(side@.take(j as int + 1))) =~= base.union(
                intervals_reo_union(side@.take(j as int)),
            ).union(side@[j as int].reos@.to_set()));
        }
        merge_ids(acc, &side[j].reos);
        j = j + 1;
    }
    proof {
        assert(side@.take(side@.len() as int) =~= side@);
    }
}

/// Merges the feature ids of every interval of one side into the accumulator.
fn merge_side_features(acc: &mut Vec<u64>, side: &Vec<ManifestInterval>)
    requires
        strictly_sorted(old(acc)@),
    ensures
        strictly_sorted(final(acc)@),
        final(acc)@.to_set() == old(acc)@.to_set().union(intervals_feature_union(side@)),
{
    let ghost base = old(acc)@.to_set();
    proof {
        assert(side@.take(0) =~= Seq::<ManifestInterval>::empty());
        assert(base.union(intervals_feature_union(side@.take(0))) =~= base);
    }
    let mut j: usize = 0;
    while j < side.len()
        invariant
            0 <= j <= side@.len(),
            strictly_sorted(acc@),
            acc@.to_set() == base.union(intervals_feature_union(side@.take(j as int))),
        decreases side@.len() - j,
    {
        proof {
            assert(side@.take(j as int + 1) =~= side@.take(j as int).push(side@[j as int]));
            assert(side@.take(j as int + 1).drop_last() =~= side@.take(j as int));
            assert(base.union(intervals_feature_union(side@.take(j as int + 1))) =~= base.union(
                intervals_feature_union(side@.take(j as int)),
            ).union(side@[j as int].features@.to_set()));
        }
        merge_ids(acc, &side[j].features);
        j = j + 1;
    }
    proof {
        assert(side@.take(side@.len() as int) =~= side@);
    }
}

/// The length of a strictly sorted vector is the cardinality of its set.
proof fn lemma_sorted_len_is_card(s: Seq<u64>)
    requires
        strictly_sorted(s),
    ensures
        s.to_set().len() == s.len(),
{
    assert(s.no_duplicates());
    s.unique_seq_to_set();
}

/// Walks every assembled chromosome and returns the dataset-wide distinct
/// counts: REO ids over both sides, feature ids over source intervals, and
/// feature ids over target intervals.
pub fn collect(chromosomes: &Vec<ManifestChromosomeData>) -> (r: (u64, u64, u64))
    ensures
        r.0 == chroms_reo_union(chromosomes@).len(),
        r.1 == chroms_source_union(chromosomes@).len(),
        r.2 == chroms_target_union(chromosomes@).len(),
{
    let ghost cs = chromosomes@;
    let mut reo_acc: Vec<u64> = Vec::new();
    let mut src_acc: Vec<u64> = Vec::new();
    let mut tgt_acc: Vec<u64> = Vec::new();
    proof {
        assert(cs.take(0) =~= Seq::<ManifestChromosomeData>::empty());
        assert(reo_acc@.to_set() =~= chroms_reo_union(cs.take(0)));
        assert(src_acc@.to_set() =~= chroms_source_union(cs.take(0)));
        assert(tgt_acc@.to_set() =~= chroms_target_union(cs.take(0)));
    }
    let mut i: usize = 0;
    while i < chromosomes.len()
        invariant
            0 <= i <= cs.len(),
            cs == chromosomes@,
            strictly_sorted(reo_acc@),
            strictly_sorted(src_acc@),
            strictly_sorted(tgt_acc@),
            reo_acc@.to_set() == chroms_reo_union(cs.take(i as int)),
            src_acc@.to_set() == chroms_source_union(cs.take(i as int)),
            tgt_acc@.to_set() == chroms_target_union(cs.take(i as int)),
        decreases cs.len() - i,
    {
        let c = &chromosomes[i];
        proof {
            assert(cs.take(i as int + 1) =~= cs.take(i as int).push(cs[i as int]));
            assert(cs.take(i as int + 1).drop_last() =~= cs.take(i as int));
        }
        merge_side_reos(&mut reo_acc, &c.source_intervals);
        merge_side_reos(&mut reo_acc, &c.target_intervals);
        merge_side_features(&mut src_acc, &c.source_intervals);
        merge_side_features(&mut tgt_acc, &c.target_intervals);
        i = i + 1;
    }
    proof {
        assert(cs.take(cs.len() as int) =~= cs);
        lemma_sorted_len_is_card(reo_acc@);
        lemma_sorted_len_is_card(src_acc@);
        lemma_sorted_len_is_card(tgt_acc@);
    }
    (reo_acc.len() as u64, src_acc.len() as u64, tgt_acc.len() as u64)
}

/// The contributing REO ids of one side's raw intervals, as one set.
pub open spec fn side_reo_set(ints: Seq<IntervalRecord>, filter: Seq<u64>) -> Set<u64>
    decreases ints.len(),
{
    if ints.len() == 0 {
        Set::empty()
    } else {
        side_reo_set(ints.drop_last(), filter).union(reo_id_set(ints.last().features@, filter))
    }
}

/// The retained feature ids of one side's raw intervals, as one set.
pub open spec fn side_feature_set(ints: Seq<IntervalRecord>, filter: Seq<u64>) -> Set<u64>
    decreases ints.len(),
{
    if ints.len() == 0 {
        Set::empty()
    } else {
        side_feature_set(ints.drop_last(), filter).union(
            feature_id_set(ints.last().features@, filter),
        )
    }
}

/// The contributing REO ids of the whole raw dataset, both sides.
pub open spec fn dataset_reo_set(chroms: Seq<ChromosomeRecord>, filter: Seq<u64>) -> Set<u64>
    decreases chroms.len(),
{
    if chroms.len() == 0 {
        Set::empty()
    } else {
        dataset_reo_set(chroms.drop_last(), filter).union(
            side_reo_set(chroms.last().source_intervals@, filter),
        ).union(side_reo_set(chroms.last().target_intervals@, filter))
    }
}

/// The retained source feature ids of the whole raw dataset.
pub open spec fn dataset_source_set(chroms: Seq<ChromosomeRecord>, filter: Seq<u64>) -> Set<u64>
    decreases chroms.len(),
{
    if chroms.len() == 0 {
        Set::empty()
    } else {
        dataset_source_set(chroms.drop_last(), filter).union(
            side_feature_set(chroms.last().source_intervals@, filter),
        )
    }
}

/// The retained target feature ids of the whole raw dataset.
pub open spec fn dataset_target_set(chroms: Seq<ChromosomeRecord>, filter: Seq<u64>) -> Set<u64>
    decreases chroms.len(),
{
    if chroms.len() == 0 {
        Set::empty()
    } else {
        dataset_target_set(chroms.drop_last(), filter).union(
            side_feature_set(chroms.last().target_intervals@, filter),
        )
    }
}

/// An interval that retains no feature contributes nothing: its contributing
/// observation list and both its id sets are empty.
pub proof fn lemma_dropped_interval_empty(fs: Seq<FeatureGroup>, filter: Seq<u64>)
    requires
        retained_features(fs, filter).len() == 0,
    ensures
        contrib_obs(fs, filter) == Seq::<Observation>::empty(),
        reo_id_set(fs, filter) == Set::<u64>::empty(),
        feature_id_set(fs, filter) == Set::<u64>::empty(),
{
    let rf = retained_features(fs, filter);
    assert(rf =~= Seq::<FeatureGroup>::empty());
    assert(contrib_per_feature(fs, filter) =~= Seq::<Seq<Observation>>::empty());
    assert(contrib_obs(fs, filter) =~= Seq::<Observation>::empty());
    assert(reo_ids(contrib_obs(fs, filter)) =~= Seq::<u64>::empty());
    assert(feature_ids(rf) =~= Seq::<u64>::empty());
    assert(reo_id_set(fs, filter) =~= Set::<u64>::empty());
    assert(feature_id_set(fs, filter) =~= Set::<u64>::empty());
}

/// Stable insertion adds exactly the inserted interval's ids to the unions.
proof fn lemma_stable_insert_unions(s: Seq<ManifestInterval>, x: ManifestInterval)
    ensures
        intervals_reo_union(stable_insert(s, x)) == intervals_reo_union(s).union(
            x.reos@.to_set(),
        ),
        intervals_feature_union(stable_insert(s, x)) == intervals_feature_union(s).union(
            x.features@.to_set(),
        ),
    decreases s.len(),
{
    if s.len() == 0 {
        let t = stable_insert(s, x);
        assert(t =~= Seq::<ManifestInterval>::empty().push(x));
        assert(t.len() == 1 && t.last() == x);
        assert(t.drop_last() =~= Seq::<ManifestInterval>::empty());
        assert(t.drop_last() == Seq::<ManifestInterval>::empty());
        assert(intervals_reo_union(t) == intervals_reo_union(t.drop_last()).union(
            t.last().reos@.to_set(),
        ));
        assert(intervals_reo_union(t.drop_last()) == Set::<u64>::empty());
        assert(intervals_reo_union(s) == Set::<u64>::empty());
        assert(intervals_feature_union(t) == intervals_feature_union(t.drop_last()).union(
            t.last().features@.to_set(),
        ));
        assert(intervals_feature_union(t.drop_last()) == Set::<u64>::empty());
        assert(intervals_feature_union(s) == Set::<u64>::empty());
    } else if s.last().start <= x.start {
        assert(s.push(x).drop_last() =~= s);
        assert(s.push(x).drop_last() == s);
    } else {
        lemma_stable_insert_unions(s.drop_last(), x);
        let t = stable_insert(s.drop_last(), x);
        assert(t.push(s.last()).drop_last() =~= t);
        assert(t.push(s.last()).drop_last() == t);
        assert(intervals_reo_union(t.push(s.last())) =~= intervals_reo_union(s).union(
            x.reos@.to_set(),
        ));
        assert(intervals_feature_union(t.push(s.last())) =~= intervals_feature_union(s).union(
            x.features@.to_set(),
        ));
    }
}

/// Sorting does not change the unions.
proof fn lemma_sort_unions(s: Seq<ManifestInterval>)
    ensures
        intervals_reo_union(sort_by_start(s)) == intervals_reo_union(s),
        intervals_feature_union(sort_by_start(s)) == intervals_feature_union(s),
    decreases s.len(),
{
    if s.len() == 0 {
    } else {
        lemma_sort_unions(s.drop_last());
        lemma_stable_insert_unions(sort_by_start(s.drop_last()), s.last());
        assert(intervals_reo_union(sort_by_start(s)) =~= intervals_reo_union(s));
        assert(intervals_feature_union(sort_by_start(s)) =~= intervals_feature_union(s));
    }
}

/// The unions over the survivors equal the unions over all raw intervals:
/// dropped intervals contribute nothing.
proof fn lemma_survivors_unions(
    ints: Seq<IntervalRecord>,
    filter: Seq<u64>,
    w: Seq<ManifestInterval>,
)
    requires
        survivors_match(ints, filter, w),
    ensures
        intervals_reo_union(w) == side_reo_set(ints, filter),
        intervals_feature_union(w) == side_feature_set(ints, filter),
    decreases ints.len(),
{
    if ints.len() == 0 {
        assert(w =~= Seq::<ManifestInterval>::empty());
        assert(w == Seq::<ManifestInterval>::empty());
    } else if retained_features(ints.last().features@, filter).len() == 0 {
        lemma_survivors_unions(ints.drop_last(), filter, w);
        lemma_dropped_interval_empty(ints.last().features@, filter);
        assert(side_reo_set(ints, filter) =~= side_reo_set(ints.drop_last(), filter));
        assert(side_feature_set(ints, filter) =~= side_feature_set(ints.drop_last(), filter));
    } else {
        lemma_survivors_unions(ints.drop_last(), filter, w.drop_last());
    }
}

/// The unions over an assembled side equal the unions over its raw intervals.
pub proof fn lemma_assembled_side_unions(
    ints: Seq<IntervalRecord>,
    filter: Seq<u64>,
    out: Seq<ManifestInterval>,
)
    requires
        assembled_side(ints, filter, out),
    ensures
        intervals_reo_union(out) == side_reo_set(ints, filter),
        intervals_feature_union(out) == side_feature_set(ints, filter),
{
    let w = choose|w: Seq<ManifestInterval>|
        survivors_match(ints, filter, w) && out == sort_by_start(w);
    lemma_sort_unions(w);
    lemma_survivors_unions(ints, filter, w);
}

/// The dataset-wide unions over the assembled chromosomes equal those over
/// the raw dataset.
pub proof fn lemma_assembled_unions(
    chroms: Seq<ChromosomeRecord>,
    filter: Seq<u64>,
    mcs: Seq<ManifestChromosomeData>,
)
    requires
        mcs.len() == chroms.len(),
        forall|i: int| 0 <= i < chroms.len() ==> assembled_chrom(chroms[i], filter, #[trigger] mcs[i]),
    ensures
        chroms_reo_union(mcs) == dataset_reo_set(chroms, filter),
        chroms_source_union(mcs) == dataset_source_set(chroms, filter),
        chroms_target_union(mcs) == dataset_target_set(chroms, filter),
    decreases chroms.len(),
{
    if chroms.len() == 0 {
        assert(chroms_reo_union(mcs) =~= dataset_reo_set(chroms, filter));
        assert(chroms_source_union(mcs) =~= dataset_source_set(chroms, filter));
        assert(chroms_target_union(mcs) =~= dataset_target_set(chroms, filter));
    } else {
        assert forall|i: int| 0 <= i < chroms.drop_last().len() implies assembled_chrom(
            chroms.drop_last()[i],
            filter,
            #[trigger] mcs.drop_last()[i],
        ) by {
            assert(mcs.drop_last()[i] == mcs[i]);
            assert(chroms.drop_last()[i] == chroms[i]);
        }
        lemma_assembled_unions(chroms.drop_last(), filter, mcs.drop_last());
        assert(assembled_chrom(chroms.last(), filter, mcs[chroms.len() - 1]));
        lemma_assembled_side_unions(
            chroms.last().source_intervals@,
            filter,
            mcs.last().source_intervals@,
        );
        lemma_assembled_side_unions(
            chroms.last().target_intervals@,
            filter,
            mcs.last().target_intervals@,
        );
    }
}

} // verus!
