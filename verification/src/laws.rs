//! General laws of the aggregation engine, each stated and proved over the
//! spec functions that the executable functions' contracts use.

use vstd::prelude::*;

use crate::agg::{ManifestInterval, is_aggregate, max_effect_of, min_sig_of};
use crate::assemble::{sort_by_start, stable_insert};
use crate::model::{
    FeatureGroup, IntervalRecord, Observation, contrib_obs, retained_features, retained_pred,
};

verus! {

/// With an empty facet filter, filtering is disabled: every feature is
/// retained, in input order.
pub proof fn lemma_empty_filter_retains_all(fs: Seq<FeatureGroup>, filter: Seq<u64>)
    requires
        filter.len() == 0,
    ensures
        retained_features(fs, filter) == fs,
    decreases fs.len(),
{
    reveal(Seq::filter);
    if fs.len() == 0 {
        assert(retained_features(fs, filter) =~= fs);
    } else {
        lemma_empty_filter_retains_all(fs.drop_last(), filter);
        assert(retained_pred(filter)(fs.last()));
        assert(retained_features(fs, filter) =~= fs);
    }
}

/// With an empty facet filter, an aggregated interval's `count` equals the
/// raw feature count exactly.
pub proof fn lemma_empty_filter_count(
    interval: IntervalRecord,
    filter: Seq<u64>,
    m: ManifestInterval,
)
    requires
        filter.len() == 0,
        is_aggregate(interval, filter, m),
    ensures
        m.count == interval.features@.len(),
{
    lemma_empty_filter_retains_all(interval.features@, filter);
}

/// An aggregated interval's `count` never exceeds the raw feature count.
pub proof fn lemma_count_bound(interval: IntervalRecord, filter: Seq<u64>, m: ManifestInterval)
    requires
        is_aggregate(interval, filter, m),
    ensures
        m.count <= interval.features@.len(),
{
    interval.features@.lemma_filter_len(retained_pred(filter));
}

/// The minimum significance is attained by a contributing observation and
/// never exceeds any contributing observation's significance; it exists
/// exactly when an observation contributes.
pub proof fn lemma_min_sig_exact(s: Seq<Observation>)
    ensures
        min_sig_of(s) is Some <==> s.len() > 0,
        min_sig_of(s) matches Some(msv) ==> exists|i: int|
            0 <= i < s.len() && s[i].sig_key == msv,
        min_sig_of(s) matches Some(msv) ==> forall|i: int|
            0 <= i < s.len() ==> msv <= s[i].sig_key,
    decreases s.len(),
{
    if s.len() == 0 {
    } else {
        lemma_min_sig_exact(s.drop_last());
        match min_sig_of(s.drop_last()) {
            None => {
                let msv = min_sig_of(s).unwrap();
                assert(msv == s.last().sig_key);
                assert(s[s.len() - 1].sig_key == msv);
            },
            Some(m) => {
                let msv = min_sig_of(s).unwrap();
                if s.last().sig_key < m {
                    assert(s[s.len() - 1].sig_key == msv);
                } else {
                    let i = choose|i: int| 0 <= i < s.drop_last().len() && s.drop_last()[i].sig_key
                        == m;
                    assert(s[i].sig_key == msv);
                }
                assert forall|i: int| 0 <= i < s.len() implies msv <= s[i].sig_key by {
                    if i < s.len() - 1 {
                        assert(s.drop_last()[i] == s[i]);
                    }
                }
            },
        }
    }
}

/// The selected effect's magnitude bounds every contributing observation's
/// magnitude, and the selected effect is the value of the last observation
/// attaining that magnitude: on an exact tie, the later observation wins.
pub proof fn lemma_max_effect_exact(s: Seq<Observation>)
    ensures
        max_effect_of(s) is Some <==> s.len() > 0,
        max_effect_of(s) matches Some(e) ==> forall|i: int|
            0 <= i < s.len() ==> s[i].effect.mag <= e.mag,
        max_effect_of(s) matches Some(e) ==> exists|i: int|
            0 <= i < s.len() && s[i].effect == e && (forall|j: int|
                i < j < s.len() ==> s[j].effect.mag < e.mag),
    decreases s.len(),
{
    if s.len() == 0 {
    } else {
        lemma_max_effect_exact(s.drop_last());
        let e = max_effect_of(s).unwrap();
        match max_effect_of(s.drop_last()) {
            None => {
                assert(s.len() == 1);
                assert(e == s.last().effect);
                assert(s[s.len() - 1].effect == e && (forall|j: int|
                    s.len() - 1 < j < s.len() ==> s[j].effect.mag < e.mag));
            },
            Some(ep) => {
                assert forall|i: int| 0 <= i < s.len() implies s[i].effect.mag <= e.mag by {
                    if i < s.len() - 1 {
                        assert(s.drop_last()[i] == s[i]);
                    }
                }
                if ep.mag > s.last().effect.mag {
                    assert(e == ep);
                    let i = choose|i: int|
                        0 <= i < s.drop_last().len() && s.drop_last()[i].effect == ep && (forall|
                            j: int,
                        |
                            i < j < s.drop_last().len() ==> s.drop_last()[j].effect.mag < ep.mag);
                    assert forall|j: int| i < j < s.len() implies s[j].effect.mag < e.mag by {
                        if j < s.len() - 1 {
                            assert(s.drop_last()[j] == s[j]);
                        }
                    }
                    assert(s[i].effect == e);
                } else {
                    assert(e == s.last().effect);
                    assert(s[s.len() - 1].effect == e && (forall|j: int|
                        s.len() - 1 < j < s.len() ==> s[j].effect.mag < e.mag));
                }
            },
        }
    }
}

/// An aggregated interval's `min_sig` is the significance of some
/// contributing observation, never exceeds any contributing observation's
/// significance, and exists exactly when an observation contributes.
pub proof fn lemma_aggregate_min_sig(
    interval: IntervalRecord,
    filter: Seq<u64>,
    m: ManifestInterval,
)
    requires
        is_aggregate(interval, filter, m),
    ensures
        m.min_sig is Some <==> contrib_obs(interval.features@, filter).len() > 0,
        m.min_sig matches Some(v) ==> exists|i: int|
            0 <= i < contrib_obs(interval.features@, filter).len() && contrib_obs(
                interval.features@,
                filter,
            )[i].sig_key == v,
        m.min_sig matches Some(v) ==> forall|i: int|
            0 <= i < contrib_obs(interval.features@, filter).len() ==> v <= contrib_obs(
                interval.features@,
                filter,
            )[i].sig_key,
{
    lemma_min_sig_exact(contrib_obs(interval.features@, filter));
}

/// An aggregated interval's `max_abs_effect` has the greatest magnitude among
/// the contributing observations and is the signed value of the last
/// observation attaining it.
pub proof fn lemma_aggregate_max_effect(
    interval: IntervalRecord,
    filter: Seq<u64>,
    m: ManifestInterval,
)
    requires
        is_aggregate(interval, filter, m),
    ensures
        m.max_abs_effect is Some <==> contrib_obs(interval.features@, filter).len() > 0,
        m.max_abs_effect matches Some(e) ==> forall|i: int|
            0 <= i < contrib_obs(interval.features@, filter).len() ==> contrib_obs(
                interval.features@,
                filter,
            )[i].effect.mag <= e.mag,
        m.max_abs_effect matches Some(e) ==> exists|i: int|
            0 <= i < contrib_obs(interval.features@, filter).len() && contrib_obs(
                interval.features@,
                filter,
            )[i].effect == e && (forall|j: int|
                i < j < contrib_obs(interval.features@, filter).len() ==> contrib_obs(
                    interval.features@,
                    filter,
                )[j].effect.mag < e.mag),
{
    lemma_max_effect_exact(contrib_obs(interval.features@, filter));
}

/// "The interval starts at `v`" as a predicate value, for `Seq::filter`.
pub open spec fn start_eq(v: u32) -> spec_fn(ManifestInterval) -> bool {
    |m: ManifestInterval| m.start == v
}

/// A stable insertion appends an interval after those with its start value
/// and does not disturb the intervals with any other start value.
proof fn lemma_stable_insert_start_filter(s: Seq<ManifestInterval>, x: ManifestInterval, v: u32)
    ensures
        stable_insert(s, x).filter(start_eq(v)) == if x.start == v {
            s.filter(start_eq(v)).push(x)
        } else {
            s.filter(start_eq(v))
        },
    decreases s.len(),
{
    reveal(Seq::filter);
    if s.len() == 0 {
        assert(s =~= Seq::<ManifestInterval>::empty());
        assert(stable_insert(s, x) =~= Seq::<ManifestInterval>::empty().push(x));
        Seq::<ManifestInterval>::empty().lemma_filter_push(x, start_eq(v));
        assert(Seq::<ManifestInterval>::empty().filter(start_eq(v))
            =~= Seq::<ManifestInterval>::empty());
    } else if s.last().start <= x.start {
        s.lemma_filter_push(x, start_eq(v));
    } else {
        lemma_stable_insert_start_filter(s.drop_last(), x, v);
        let t = stable_insert(s.drop_last(), x);
        t.lemma_filter_push(s.last(), start_eq(v));
        s.drop_last().lemma_filter_push(s.last(), start_eq(v));
        assert(s.drop_last().push(s.last()) =~= s);
        assert(s.drop_last().push(s.last()).filter(start_eq(v)) == s.filter(start_eq(v)));
    }
}

/// Stability of the sort: for every start value `v`, the intervals starting
/// at `v` appear in the sorted sequence exactly as they appear in the input,
/// in the same relative order.
pub proof fn lemma_sort_by_start_stable(s: Seq<ManifestInterval>, v: u32)
    ensures
        sort_by_start(s).filter(start_eq(v)) == s.filter(start_eq(v)),
    decreases s.len(),
{
    if s.len() == 0 {
        assert(sort_by_start(s) == Seq::<ManifestInterval>::empty());
        assert(s =~= Seq::<ManifestInterval>::empty());
    } else {
        lemma_sort_by_start_stable(s.drop_last(), v);
        lemma_stable_insert_start_filter(sort_by_start(s.drop_last()), s.last(), v);
        s.drop_last().lemma_filter_push(s.last(), start_eq(v));
        assert(s.drop_last().push(s.last()) =~= s);
        assert(s.drop_last().push(s.last()).filter(start_eq(v)) == s.filter(start_eq(v)));
    }
}

} // verus!
