//! The facet range recomputer: derives the numeric slider bounds for the
//! "Significance" and "Effect Size" facets from the filtered dataset, and
//! overlays them onto the facet descriptor list.

use vstd::prelude::*;

use crate::model::{
    ChromosomeRecord, FacetDescriptor, FeatureGroup, IntervalRecord, NumRange, Observation,
    contrib_obs, contrib_obs_of_feature, contrib_per_feature, contrib_pred, obs_contributes,
    retained_features, retained_pred,
};

verus! {

/// Widens the range `a` to cover the key `k`.
pub open spec fn merge_range(a: Option<NumRange>, k: u64) -> Option<NumRange> {
    match a {
        None => Some(NumRange { lo: k, hi: k }),
        Some(r) => Some(
            NumRange {
                lo: if k < r.lo { k } else { r.lo },
                hi: if k > r.hi { k } else { r.hi },
            },
        ),
    }
}

/// Folds `merge_range` over the keys of `ks`, starting from `a`.
pub open spec fn range_from(a: Option<NumRange>, ks: Seq<u64>) -> Option<NumRange>
    decreases ks.len(),
{
    if ks.len() == 0 {
        a
    } else {
        merge_range(range_from(a, ks.drop_last()), ks.last())
    }
}

/// The significance keys of the observations of `s`, in order.
pub open spec fn sig_keys(s: Seq<Observation>) -> Seq<u64> {
    s.map_values(|o: Observation| o.sig_key)
}

/// The effect-size keys of the observations of `s`, in order.
pub open spec fn effect_keys(s: Seq<Observation>) -> Seq<u64> {
    s.map_values(|o: Observation| o.effect.key)
}

/// The significance range of the observations of `s`: the least and greatest
/// significance key, or `None` when `s` is empty.
pub open spec fn sig_range_of(s: Seq<Observation>) -> Option<NumRange> {
    range_from(None, sig_keys(s))
}

/// The effect-size range of the observations of `s`.
pub open spec fn effect_range_of(s: Seq<Observation>) -> Option<NumRange> {
    range_from(None, effect_keys(s))
}

/// The contributing observations of one side's intervals, in input order.
pub open spec fn side_contrib(ints: Seq<IntervalRecord>, filter: Seq<u64>) -> Seq<Observation>
    decreases ints.len(),
{
    if ints.len() == 0 {
        Seq::empty()
    } else {
        side_contrib(ints.drop_last(), filter) + contrib_obs(ints.last().features@, filter)
    }
}

/// The contributing observations of the whole dataset: for each chromosome in
/// order, the source side then the target side.
pub open spec fn dataset_contrib(chroms: Seq<ChromosomeRecord>, filter: Seq<u64>) -> Seq<
    Observation,
>
    decreases chroms.len(),
{
    if chroms.len() == 0 {
        Seq::empty()
    } else {
        dataset_contrib(chroms.drop_last(), filter) + side_contrib(
            chroms.last().source_intervals@,
            filter,
        ) + side_contrib(chroms.last().target_intervals@, filter)
    }
}

/// Folding a concatenation folds the two parts in turn.
proof fn lemma_range_from_concat(a: Option<NumRange>, k1: Seq<u64>, k2: Seq<u64>)
    ensures
        range_from(a, k1 + k2) == range_from(range_from(a, k1), k2),
    decreases k2.len(),
{
    if k2.len() == 0 {
        assert(k1 + k2 =~= k1);
    } else {
        assert((k1 + k2).drop_last() =~= k1 + k2.drop_last());
        assert((k1 + k2).last() == k2.last());
        lemma_range_from_concat(a, k1, k2.drop_last());
    }
}

/// Widens the pair of ranges by one observation's keys.
fn merge_obs(sig: Option<NumRange>, eff: Option<NumRange>, o: &Observation) -> (r: (
    Option<NumRange>,
    Option<NumRange>,
))
    ensures
        r.0 == merge_range(sig, o.sig_key),
        r.1 == merge_range(eff, o.effect.key),
{
    let new_sig = match sig {
        None => NumRange { lo: o.sig_key, hi: o.sig_key },
        Some(r) => NumRange {
            lo: if o.sig_key < r.lo {
                o.sig_key
            } else {
                r.lo
            },
            hi: if o.sig_key > r.hi {
                o.sig_key
            } else {
                r.hi
            },
        },
    };
    let new_eff = match eff {
        None => NumRange { lo: o.effect.key, hi: o.effect.key },
        Some(r) => NumRange {
            lo: if o.effect.key < r.lo {
                o.effect.key
            } else {
                r.lo
            },
            hi: if o.effect.key > r.hi {
                o.effect.key
            } else {
                r.hi
            },
        },
    };
    (Some(new_sig), Some(new_eff))
}

/// Widens the pair of ranges by one interval's contributing observations.
fn ranges_of_interval(
    interval: &IntervalRecord,
    filter: &Vec<u64>,
    sig0: Option<NumRange>,
    eff0: Option<NumRange>,
) -> (r: (Option<NumRange>, Option<NumRange>))
    ensures
        r.0 == range_from(sig0, sig_keys(contrib_obs(interval.features@, filter@))),
        r.1 == range_from(eff0, effect_keys(contrib_obs(interval.features@, filter@))),
{
    let ghost fs = interval.features@;
    let ghost filt = filter@;
    let mut sig = sig0;
    let mut eff = eff0;
    let ghost mut cs: Seq<Observation> = Seq::empty();
    proof {
        reveal(Seq::filter);
        assert(fs.take(0) =~= Seq::<FeatureGroup>::empty());
        assert(contrib_per_feature(fs.take(0), filt) =~= Seq::<Seq<Observation>>::empty());
        assert(cs =~= contrib_obs(fs.take(0), filt));
        assert(sig_keys(cs) =~= Seq::<u64>::empty());
        assert(effect_keys(cs) =~= Seq::<u64>::empty());
    }
    let mut i: usize = 0;
    while i < interval.features.len()
        invariant
            0 <= i <= fs.len(),
            fs == interval.features@,
            filt == filter@,
            cs == contrib_obs(fs.take(i as int), filt),
            sig == range_from(sig0, sig_keys(cs)),
            eff == range_from(eff0, effect_keys(cs)),
        decreases fs.len() - i,
    {
        let f = &interval.features[i];
        let ghost fg = fs[i as int];
        let retained = crate::agg::feature_retained_exec(f, filter);
        proof {
            assert(fs.take(i as int + 1) =~= fs.take(i as int).push(fg));
            fs.take(i as int).lemma_filter_push(fg, retained_pred(filt));
            assert(retained == retained_pred(filt)(fg));
        }
        if retained {
            let ghost cs_base = cs;
            let mut jo: usize = 0;
            while jo < f.observations.len()
                invariant
                    0 <= jo <= f.observations@.len(),
                    *f == fg,
                    filt == filter@,
                    cs == cs_base + fg.observations@.take(jo as int).filter(contrib_pred(filt)),
                    sig == range_from(sig0, sig_keys(cs)),
                    eff == range_from(eff0, effect_keys(cs)),
                decreases f.observations@.len() - jo,
            {
                let o = &f.observations[jo];
                let contributes = if filter.len() == 0 {
                    true
                } else {
                    crate::agg::obs_matches_exec(o, filter)
                };
                proof {
                    let oo = fg.observations@[jo as int];
                    assert(fg.observations@.take(jo as int + 1) =~= fg.observations@.take(
                        jo as int,
                    ).push(oo));
                    fg.observations@.take(jo as int).lemma_filter_push(oo, contrib_pred(filt));
                    assert(contributes == obs_contributes(oo, filt));
                }
                if contributes {
                    let r = merge_obs(sig, eff, o);
                    sig = r.0;
                    eff = r.1;
                    proof {
                        let oo = fg.observations@[jo as int];
                        let cs2 = cs.push(oo);
                        assert(cs2.drop_last() =~= cs);
                        assert(cs2.drop_last() == cs);
                        assert(cs2 =~= cs_base + fg.observations@.take(jo as int + 1).filter(
                            contrib_pred(filt),
                        ));
                        assert(sig_keys(cs2) =~= sig_keys(cs).push(oo.sig_key));
                        assert(sig_keys(cs2).drop_last() == sig_keys(cs));
                        assert(effect_keys(cs2) =~= effect_keys(cs).push(oo.effect.key));
                        assert(effect_keys(cs2).drop_last() == effect_keys(cs));
                        cs = cs2;
                    }
                }
                jo = jo + 1;
            }
            proof {
                assert(fg.observations@.take(f.observations@.len() as int) =~= fg.observations@);
                assert(cs == cs_base + contrib_obs_of_feature(fg, filt));
                let rf = retained_features(fs.take(i as int), filt);
                let cpf2 = contrib_per_feature(fs.take(i as int + 1), filt);
                assert(cpf2 =~= contrib_per_feature(fs.take(i as int), filt).push(
                    contrib_obs_of_feature(fg, filt),
                ));
                contrib_per_feature(fs.take(i as int), filt).lemma_flatten_push(
                    contrib_obs_of_feature(fg, filt),
                );
                assert(contrib_obs(fs.take(i as int + 1), filt) =~= cs);
            }
        } else {
            proof {
                assert(contrib_per_feature(fs.take(i as int + 1), filt) == contrib_per_feature(
                    fs.take(i as int),
                    filt,
                ));
            }
        }
        i = i + 1;
    }
    proof {
        assert(fs.take(fs.len() as int) =~= fs);
    }
    (sig, eff)
}

/// Widens the pair of ranges by one side's contributing observations.
fn ranges_of_side(
    intervals: &Vec<IntervalRecord>,
    filter: &Vec<u64>,
    sig0: Option<NumRange>,
    eff0: Option<NumRange>,
) -> (r: (Option<NumRange>, Option<NumRange>))
    ensures
        r.0 == range_from(sig0, sig_keys(side_contrib(intervals@, filter@))),
        r.1 == range_from(eff0, effect_keys(side_contrib(intervals@, filter@))),
{
    let ghost ints = intervals@;
    let ghost filt = filter@;
    let mut sig = sig0;
    let mut eff = eff0;
    proof {
        assert(ints.take(0) =~= Seq::<IntervalRecord>::empty());
    }
    let mut j: usize = 0;
    while j < intervals.len()
        invariant
            0 <= j <= ints.len(),
            ints == intervals@,
            filt == filter@,
            sig == range_from(sig0, sig_keys(side_contrib(ints.take(j as int), filt))),
            eff == range_from(eff0, effect_keys(side_contrib(ints.take(j as int), filt))),
        decreases ints.len() - j,
    {
        proof {
            assert(ints.take(j as int + 1) =~= ints.take(j as int).push(ints[j as int]));
            assert(ints.take(j as int + 1).drop_last() =~= ints.take(j as int));
            let a = side_contrib(ints.take(j as int), filt);
            let b = contrib_obs(ints[j as int].features@, filt);
            assert(side_contrib(ints.take(j as int + 1), filt) == a + b);
            assert(sig_keys(a + b) =~= sig_keys(a) + sig_keys(b));
            assert(effect_keys(a + b) =~= effect_keys(a) + effect_keys(b));
            lemma_range_from_concat(sig0, sig_keys(a), sig_keys(b));
            lemma_range_from_concat(eff0, effect_keys(a), effect_keys(b));
        }
        let r = ranges_of_interval(&intervals[j], filter, sig, eff);
        sig = r.0;
        eff = r.1;
        j = j + 1;
    }
    proof {
        assert(ints.take(ints.len() as int) =~= ints);
    }
    (sig, eff)
}

/// Computes the numeric slider intervals of the filtered dataset: the range
/// of significance keys and the range of effect-size keys over every
/// contributing observation, or `None` when nothing contributes.
pub fn compute_numeric_intervals(chromosomes: &Vec<ChromosomeRecord>, filter: &Vec<u64>) -> (r: (
    Option<NumRange>,
    Option<NumRange>,
))
    ensures
        r.0 == sig_range_of(dataset_contrib(chromosomes@, filter@)),
        r.1 == effect_range_of(dataset_contrib(chromosomes@, filter@)),
{
    let ghost cs = chromosomes@;
    let ghost filt = filter@;
    let mut sig: Option<NumRange> = None;
    let mut eff: Option<NumRange> = None;
    proof {
        assert(cs.take(0) =~= Seq::<ChromosomeRecord>::empty());
        assert(sig_keys(Seq::<Observation>::empty()) =~= Seq::<u64>::empty());
        assert(effect_keys(Seq::<Observation>::empty()) =~= Seq::<u64>::empty());
    }
    let mut i: usize = 0;
    while i < chromosomes.len()
        invariant
            0 <= i <= cs.len(),
            cs == chromosomes@,
            filt == filter@,
            sig == range_from(None, sig_keys(dataset_contrib(cs.take(i as int), filt))),
            eff == range_from(None, effect_keys(dataset_contrib(cs.take(i as int), filt))),
        decreases cs.len() - i,
    {
        let c = &chromosomes[i];
        proof {
            assert(cs.take(i as int + 1) =~= cs.take(i as int).push(cs[i as int]));
            assert(cs.take(i as int + 1).drop_last() =~= cs.take(i as int));
            let a = dataset_contrib(cs.take(i as int), filt);
            let b = side_contrib(cs[i as int].source_intervals@, filt);
            let d = side_contrib(cs[i as int].target_intervals@, filt);
            assert(dataset_contrib(cs.take(i as int + 1), filt) == a + b + d);
            assert(sig_keys(a + b) =~= sig_keys(a) + sig_keys(b));
            assert(sig_keys(a + b + d) =~= sig_keys(a + b) + sig_keys(d));
            assert(effect_keys(a + b) =~= effect_keys(a) + effect_keys(b));
            assert(effect_keys(a + b + d) =~= effect_keys(a + b) + effect_keys(d));
            lemma_range_from_concat(None, sig_keys(a), sig_keys(b));
            lemma_range_from_concat(None, sig_keys(a + b), sig_keys(d));
            lemma_range_from_concat(None, effect_keys(a), effect_keys(b));
            lemma_range_from_concat(None, effect_keys(a + b), effect_keys(d));
        }
        let r1 = ranges_of_side(&c.source_intervals, filter, sig, eff);
        let r2 = ranges_of_side(&c.target_intervals, filter, r1.0, r1.1);
        sig = r2.0;
        eff = r2.1;
        i = i + 1;
    }
    proof {
        assert(cs.take(cs.len() as int) =~= cs);
    }
    (sig, eff)
}

/// Is `new_f` the descriptor `old_f` with the recomputed ranges overlaid? A
/// facet named "Significance" takes the significance interval in its
/// `range64`, one named "Effect Size" takes the effect interval in its
/// `range`; every other descriptor passes through unchanged.
pub open spec fn facet_overlaid(
    old_f: FacetDescriptor,
    sig: Option<NumRange>,
    eff: Option<NumRange>,
    new_f: FacetDescriptor,
) -> bool {
    &&& new_f.id == old_f.id
    &&& new_f.name@ == old_f.name@
    &&& new_f.kind@ == old_f.kind@
    &&& new_f.range64 == (if old_f.name@ == "Significance"@ {
        sig
    } else {
        old_f.range64
    })
    &&& new_f.range == (if old_f.name@ == "Effect Size"@ {
        eff
    } else {
        old_f.range
    })
}

/// Recomputes the slider ranges of the two named numeric facets over the
/// filtered dataset and overlays them; all other descriptors pass through
/// unchanged.
pub fn recompute_facet_ranges(
    facets: &Vec<FacetDescriptor>,
    chromosomes: &Vec<ChromosomeRecord>,
    filter: &Vec<u64>,
) -> (r: Vec<FacetDescriptor>)
    ensures
        r@.len() == facets@.len(),
        forall|i: int|
            0 <= i < facets@.len() ==> facet_overlaid(
                facets@[i],
                sig_range_of(dataset_contrib(chromosomes@, filter@)),
                effect_range_of(dataset_contrib(chromosomes@, filter@)),
                r@[i],
            ),
{
    let ranges = compute_numeric_intervals(chromosomes, filter);
    let ghost sig = sig_range_of(dataset_contrib(chromosomes@, filter@));
    let ghost eff = effect_range_of(dataset_contrib(chromosomes@, filter@));
    let sig_name: String = "Significance".to_owned();
    let eff_name: String = "Effect Size".to_owned();
    let mut out: Vec<FacetDescriptor> = Vec::new();
    let mut i: usize = 0;
    while i < facets.len()
        invariant
            0 <= i <= facets@.len(),
            out@.len() == i,
            ranges.0 == sig,
            ranges.1 == eff,
            sig_name@ == "Significance"@,
            eff_name@ == "Effect Size"@,
            forall|k: int| 0 <= k < i ==> facet_overlaid(facets@[k], sig, eff, out@[k]),
        decreases facets@.len() - i,
    {
        let f = &facets[i];
        let range64 = if f.name == sig_name {
            ranges.0
        } else {
            f.range64
        };
        let range = if f.name == eff_name {
            ranges.1
        } else {
            f.range
        };
        out.push(
            FacetDescriptor {
                id: f.id,
                name: f.name.clone(),
                kind: f.kind.clone(),
                range,
                range64,
            },
        );
        i = i + 1;
    }
    out
}

} // verus!
