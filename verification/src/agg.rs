//! The interval aggregator: filters one interval's feature observations
//! against a facet-id filter and summarizes the survivors.

use vstd::prelude::*;

use crate::model::{
    BucketLoc, EffectVal, FeatureGroup, IntervalRecord, Observation, contrib_obs,
    contrib_obs_of_feature, contrib_per_feature, contrib_pred, feature_ids, feature_retained,
    obs_contributes, obs_matches, reo_ids, retained_features, retained_pred,
};

verus! {

/// A sequence of keys in strictly ascending order (hence duplicate-free).
pub open spec fn strictly_sorted(s: Seq<u64>) -> bool {
    forall|i: int, j: int| 0 <= i < j < s.len() ==> s[i] < s[j]
}

/// The `u64` key formed from a high and a low `u32` half.
pub open spec fn bucket_key_val(hi: u32, lo: u32) -> u64 {
    (hi * 0x1_0000_0000 + lo) as u64
}

/// The single `u64` key of a bucket location: chromosome index in the high
/// half, bucket index in the low half. Injective, and ordered first by
/// chromosome, then by bucket.
pub open spec fn bucket_key(b: BucketLoc) -> u64 {
    bucket_key_val(b.chrom, b.idx)
}

/// The keys encoded by a flattened pair list: entries `2i` and `2i + 1` hold
/// the high and low half of the `i`-th key.
pub open spec fn flat_keys(s: Seq<u32>) -> Seq<u64> {
    Seq::new((s.len() / 2) as nat, |i: int| bucket_key_val(s[2 * i], s[2 * i + 1]))
}

/// The REO ids of the contributing observations of `fs`, as a set.
pub open spec fn reo_id_set(fs: Seq<FeatureGroup>, filter: Seq<u64>) -> Set<u64> {
    reo_ids(contrib_obs(fs, filter)).to_set()
}

/// The ids of the retained features of `fs`, as a set.
pub open spec fn feature_id_set(fs: Seq<FeatureGroup>, filter: Seq<u64>) -> Set<u64> {
    feature_ids(retained_features(fs, filter)).to_set()
}

/// The bucket keys of one feature, in input order.
pub open spec fn feature_bucket_keys(f: FeatureGroup) -> Seq<u64> {
    f.buckets@.map_values(|b: BucketLoc| bucket_key(b))
}

/// The bucket keys of each feature of `fs`, one sequence per feature.
pub open spec fn features_bucket_keys(fs: Seq<FeatureGroup>) -> Seq<Seq<u64>> {
    fs.map_values(|f: FeatureGroup| feature_bucket_keys(f))
}

/// The bucket keys spanned by the retained features of `fs`, as a set.
pub open spec fn bucket_key_set(fs: Seq<FeatureGroup>, filter: Seq<u64>) -> Set<u64> {
    features_bucket_keys(retained_features(fs, filter)).flatten().to_set()
}

/// The minimum significance key among the observations of `s`, or `None` when
/// `s` is empty.
pub open spec fn min_sig_of(s: Seq<Observation>) -> Option<u64>
    decreases s.len(),
{
    if s.len() == 0 {
        None
    } else {
        match min_sig_of(s.drop_last()) {
            None => Some(s.last().sig_key),
            Some(m) => Some(if s.last().sig_key < m { s.last().sig_key } else { m }),
        }
    }
}

/// The maximum-magnitude effect among the observations of `s`, processed in
/// order and seeded empty: each observation replaces the current selection
/// unless the current magnitude is strictly greater, so on an exact tie in
/// magnitude the later observation's signed value wins.
pub open spec fn max_effect_of(s: Seq<Observation>) -> Option<EffectVal>
    decreases s.len(),
{
    if s.len() == 0 {
        None
    } else {
        match max_effect_of(s.drop_last()) {
            None => Some(s.last().effect),
            Some(e) => Some(if e.mag > s.last().effect.mag { e } else { s.last().effect }),
        }
    }
}

/// Does the filter list contain `x`?
fn filter_contains(filter: &Vec<u64>, x: u64) -> (r: bool)
    ensures
        r == filter@.contains(x),
{
    let mut i: usize = 0;
    while i < filter.len()
        invariant
            0 <= i <= filter@.len(),
            forall|k: int| 0 <= k < i ==> filter@[k] != x,
        decreases filter@.len() - i,
    {
        if filter[i] == x {
            return true;
        }
        i = i + 1;
    }
    false
}

/// Does observation `o` carry a facet id present in `filter`?
pub(crate) fn obs_matches_exec(o: &Observation, filter: &Vec<u64>) -> (r: bool)
    ensures
        r == obs_matches(*o, filter@),
{
    let mut i: usize = 0;
    while i < o.facet_ids.len()
        invariant
            0 <= i <= o.facet_ids@.len(),
            forall|k: int| 0 <= k < i ==> !filter@.contains(o.facet_ids@[k]),
        decreases o.facet_ids@.len() - i,
    {
        if filter_contains(filter, o.facet_ids[i]) {
            return true;
        }
        i = i + 1;
    }
    false
}

/// Is feature `f` retained under `filter`?
pub(crate) fn feature_retained_exec(f: &FeatureGroup, filter: &Vec<u64>) -> (r: bool)
    ensures
        r == feature_retained(*f, filter@),
{
    if filter.len() == 0 {
        return true;
    }
    let mut i: usize = 0;
    while i < f.observations.len()
        invariant
            0 <= i <= f.observations@.len(),
            forall|k: int| 0 <= k < i ==> !obs_matches(f.observations@[k], filter@),
        decreases f.observations@.len() - i,
    {
        if obs_matches_exec(&f.observations[i], filter) {
            return true;
        }
        i = i + 1;
    }
    false
}

/// Inserts `x` into the strictly sorted vector `v`, keeping it strictly
/// sorted; a key already present is left alone.
pub(crate) fn insert_sorted(v: &mut Vec<u64>, x: u64)
    requires
        strictly_sorted(old(v)@),
    ensures
        strictly_sorted(final(v)@),
        final(v)@.to_set() == old(v)@.to_set().insert(x),
        final(v)@.len() <= old(v)@.len() + 1,
{
    let mut i: usize = 0;
    while i < v.len() && v[i as usize] < x
        invariant
            0 <= i <= v@.len(),
            forall|k: int| 0 <= k < i ==> v@[k] < x,
            strictly_sorted(v@),
        decreases v@.len() - i,
    {
        i = i + 1;
    }
    if i < v.len() && v[i as usize] == x {
        proof {
            assert(v@.contains(x));
            assert(v@.to_set() =~= v@.to_set().insert(x));
        }
        return;
    }
    let ghost before = v@;
    v.insert(i, x);
    proof {
        let s = v@;
        let ghost ii: int = i as int;
        assert forall|a: int, b: int| 0 <= a < b < s.len() implies s[a] < s[b] by {
            if b < i {
                assert(s[a] == before[a] && s[b] == before[b]);
            } else if a > i {
                assert(s[a] == before[a - 1] && s[b] == before[b - 1]);
            } else if a < i && b == i {
                assert(s[a] == before[a] && s[b] == x);
            } else if a == i && b > i {
                assert(s[a] == x && s[b] == before[b - 1]);
                if i < before.len() {
                    assert(before[ii] > x);
                    if b - 1 > i - 1 && b - 1 >= i {
                        if b - 1 == i {
                            assert(s[b] == before[ii]);
                        } else {
                            assert(before[ii] < before[b - 1]);
                        }
                    }
                }
            } else if a < i && b > i {
                assert(s[a] == before[a] && s[b] == before[b - 1]);
                if i < before.len() {
                    assert(before[a] < x);
                    assert(x < before[ii]);
                    if b - 1 == i {
                        assert(s[b] == before[ii]);
                    } else {
                        assert(before[ii] < before[b - 1]);
                    }
                } else {
                    assert(b - 1 < before.len());
                    assert(b - 1 >= i == before.len());
                    assert(false);
                }
            }
        }
        assert forall|y: u64| s.to_set().contains(y) implies before.to_set().insert(x).contains(
            y,
        ) by {
            let k = choose|k: int| 0 <= k < s.len() && s[k] == y;
            if k < i {
                assert(before[k] == y);
                assert(before.contains(y));
            } else if k == i {
            } else {
                assert(before[k - 1] == y);
                assert(before.contains(y));
            }
        }
        assert forall|y: u64| before.to_set().insert(x).contains(y) implies s.to_set().contains(
            y,
        ) by {
            if y == x {
                assert(s[i as int] == x);
                assert(s.contains(y));
            } else {
                let k = choose|k: int| 0 <= k < before.len() && before[k] == y;
                if k < i {
                    assert(s[k] == y);
                } else {
                    assert(s[k + 1] == y);
                }
                assert(s.contains(y));
            }
        }
        assert(s.to_set() =~= before.to_set().insert(x));
    }
}

/// One aggregated interval of the output manifest: the retained feature
/// count, the contributing REO ids, the retained feature ids, the
/// deduplicated flattened bucket-location pairs, and the significance and
/// effect summaries (`None` when no observation contributed).
#[derive(Clone, Debug)]
pub struct ManifestInterval {
    pub start: u32,
    pub count: u64,
    pub reos: Vec<u64>,
    pub features: Vec<u64>,
    pub associated_buckets: Vec<u32>,
    pub min_sig: Option<u64>,
    pub max_abs_effect: Option<EffectVal>,
}

/// Is `m` the aggregate of `interval` under `filter`? This pins every field:
/// the id lists are the strictly sorted enumerations of the corresponding
/// sets, and the bucket pair list is the strictly sorted enumeration of the
/// bucket-key set, flattened to explicit pairs.
pub open spec fn is_aggregate(
    interval: IntervalRecord,
    filter: Seq<u64>,
    m: ManifestInterval,
) -> bool {
    let fs = interval.features@;
    &&& m.start == interval.start
    &&& m.count == retained_features(fs, filter).len()
    &&& strictly_sorted(m.reos@)
    &&& m.reos@.to_set() == reo_id_set(fs, filter)
    &&& strictly_sorted(m.features@)
    &&& m.features@.to_set() == feature_id_set(fs, filter)
    &&& m.associated_buckets@.len() % 2 == 0
    &&& strictly_sorted(flat_keys(m.associated_buckets@))
    &&& flat_keys(m.associated_buckets@).to_set() == bucket_key_set(fs, filter)
    &&& m.min_sig == min_sig_of(contrib_obs(fs, filter))
    &&& m.max_abs_effect == max_effect_of(contrib_obs(fs, filter))
}

/// Expands each key of the strictly sorted key list into its high and low
/// `u32` halves, in order.
fn flatten_keys(keys: &Vec<u64>) -> (out: Vec<u32>)
    ensures
        out@.len() == 2 * keys@.len(),
        flat_keys(out@) == keys@,
{
    let mut out: Vec<u32> = Vec::new();
    let mut j: usize = 0;
    while j < keys.len()
        invariant
            0 <= j <= keys@.len(),
            out@.len() == 2 * j,
            forall|t: int|
                0 <= t < j ==> out@[2 * t] == ((keys@[t] as u64) / 0x1_0000_0000) as u32
                    && out@[2 * t + 1] == ((keys@[t] as u64) % 0x1_0000_0000) as u32,
        decreases keys@.len() - j,
    {
        let k = keys[j];
        let hi = (k / 0x1_0000_0000) as u32;
        let lo = (k % 0x1_0000_0000) as u32;
        out.push(hi);
        out.push(lo);
        j = j + 1;
    }
    proof {
        let fk = flat_keys(out@);
        assert(fk.len() == keys@.len());
        assert forall|t: int| 0 <= t < keys@.len() implies fk[t] == keys@[t] by {
            let k = keys@[t];
            vstd::arithmetic::div_mod::lemma_fundamental_div_mod(k as int, 0x1_0000_0000);
            assert(out@[2 * t] == ((k as u64) / 0x1_0000_0000) as u32);
            assert(out@[2 * t + 1] == ((k as u64) % 0x1_0000_0000) as u32);
        }
        assert(fk =~= keys@);
    }
    out
}

/// Filters and summarizes one interval's features against the facet filter:
/// returns `None` exactly when no feature is retained, and otherwise the
/// aggregate record (see `is_aggregate`).
pub fn aggregate(interval: &IntervalRecord, filter: &Vec<u64>) -> (r: Option<ManifestInterval>)
    ensures
        r is Some <==> retained_features(interval.features@, filter@).len() != 0,
        r matches Some(m) ==> is_aggregate(*interval, filter@, m),
{
    let ghost fs = interval.features@;
    let ghost filt = filter@;
    let mut count: u64 = 0;
    let mut reos: Vec<u64> = Vec::new();
    let mut feats: Vec<u64> = Vec::new();
    let mut keys: Vec<u64> = Vec::new();
    let mut min_sig: Option<u64> = None;
    let mut max_eff: Option<EffectVal> = None;
    let ghost mut rf: Seq<FeatureGroup> = Seq::empty();
    let ghost mut cs: Seq<Observation> = Seq::empty();
    proof {
        reveal(Seq::filter);
        assert(fs.take(0) =~= Seq::<FeatureGroup>::empty());
        assert(rf =~= retained_features(fs.take(0), filt));
        assert(contrib_per_feature(fs.take(0), filt) =~= Seq::<Seq<Observation>>::empty());
        assert(cs =~= contrib_obs(fs.take(0), filt));
        assert(reos@.to_set() =~= reo_ids(cs).to_set());
        assert(feats@.to_set() =~= feature_ids(rf).to_set());
        assert(features_bucket_keys(rf) =~= Seq::<Seq<u64>>::empty());
        assert(keys@.to_set() =~= features_bucket_keys(rf).flatten().to_set());
    }
    let mut i: usize = 0;
    while i < interval.features.len()
        invariant
            0 <= i <= fs.len(),
            fs == interval.features@,
            filt == filter@,
            rf == retained_features(fs.take(i as int), filt),
            cs == contrib_obs(fs.take(i as int), filt),
            count == rf.len(),
            count <= i,
            strictly_sorted(reos@),
            reos@.to_set() == reo_ids(cs).to_set(),
            strictly_sorted(feats@),
            feats@.to_set() == feature_ids(rf).to_set(),
            strictly_sorted(keys@),
            keys@.to_set() == features_bucket_keys(rf).flatten().to_set(),
            min_sig == min_sig_of(cs),
            max_eff == max_effect_of(cs),
        decreases fs.len() - i,
    {
        let f = &interval.features[i];
        let ghost fg = fs[i as int];
        let retained = feature_retained_exec(f, filter);
        proof {
            assert(fs.take(i as int + 1) =~= fs.take(i as int).push(fg));
            fs.take(i as int).lemma_filter_push(fg, retained_pred(filt));
            assert(retained == retained_pred(filt)(fg));
        }
        if retained {
            count = count + 1;
            insert_sorted(&mut feats, f.feature_id);
            let ghost keys_base = keys@;
            let ghost fbk = feature_bucket_keys(fg);
            let mut jb: usize = 0;
            while jb < f.buckets.len()
                invariant
                    0 <= jb <= f.buckets@.len(),
                    *f == fg,
                    fbk == feature_bucket_keys(fg),
                    strictly_sorted(keys@),
                    keys@.to_set() == keys_base.to_set().union(fbk.take(jb as int).to_set()),
                decreases f.buckets@.len() - jb,
            {
                let b = f.buckets[jb];
                let k = (b.chrom as u64) * 0x1_0000_0000u64 + (b.idx as u64);
                proof {
                    assert(k == bucket_key(b));
                    assert(fbk.take(jb as int + 1) =~= fbk.take(jb as int).push(bucket_key(b)));
                    fbk.take(jb as int).lemma_push_to_set_commute(bucket_key(b));
                    assert(keys_base.to_set().union(fbk.take(jb as int + 1).to_set())
                        =~= keys_base.to_set().union(fbk.take(jb as int).to_set()).insert(k));
                }
                insert_sorted(&mut keys, k);
                jb = jb + 1;
            }
            proof {
                assert(fbk.take(f.buckets@.len() as int) =~= fbk);
            }
            let ghost cs_base = cs;
            let mut jo: usize = 0;
            while jo < f.observations.len()
                invariant
                    0 <= jo <= f.observations@.len(),
                    *f == fg,
                    filt == filter@,
                    cs == cs_base + fg.observations@.take(jo as int).filter(contrib_pred(filt)),
                    strictly_sorted(reos@),
                    reos@.to_set() == reo_ids(cs).to_set(),
                    min_sig == min_sig_of(cs),
                    max_eff == max_effect_of(cs),
                decreases f.observations@.len() - jo,
            {
                let o = &f.observations[jo];
                let contributes = if filter.len() == 0 {
                    true
                } else {
                    obs_matches_exec(o, filter)
                };
                proof {
                    let oo = fg.observations@[jo as int];
                    assert(fg.observations@.take(jo as int + 1) =~= fg.observations@.take(
                        jo as int,
                    ).push(oo));
                    fg.observations@.take(jo as int).lemma_filter_push(oo, contrib_pred(filt));
                    assert(contributes == obs_contributes(oo, filt));
                }
                if contributes {
                    insert_sorted(&mut reos, o.reo_id);
                    min_sig = match min_sig {
                        None => Some(o.sig_key),
                        Some(m) => if o.sig_key < m {
                            Some(o.sig_key)
                        } else {
                            Some(m)
                        },
                    };
                    max_eff = match max_eff {
                        None => Some(o.effect),
                        Some(e) => if e.mag > o.effect.mag {
                            Some(e)
                        } else {
                            Some(o.effect)
                        },
                    };
                    proof {
                        let oo = fg.observations@[jo as int];
                        let cs2 = cs.push(oo);
                        assert(cs2.drop_last() =~= cs);
                        assert(cs2.drop_last() == cs);
                        assert(cs2.last() == oo);
                        assert(cs2 =~= cs_base + fg.observations@.take(jo as int + 1).filter(
                            contrib_pred(filt),
                        ));
                        assert(reo_ids(cs2) =~= reo_ids(cs).push(oo.reo_id));
                        reo_ids(cs).lemma_push_to_set_commute(oo.reo_id);
                        assert(min_sig == min_sig_of(cs2));
                        assert(max_eff == max_effect_of(cs2));
                        cs = cs2;
                    }
                } else {
                }
                jo = jo + 1;
            }
            proof {
                assert(fg.observations@.take(f.observations@.len() as int) =~= fg.observations@);
                assert(cs == cs_base + contrib_obs_of_feature(fg, filt));
                let rf2 = rf.push(fg);
                assert(retained_features(fs.take(i as int + 1), filt) == rf2);
                // feature ids
                assert(feature_ids(rf2) =~= feature_ids(rf).push(fg.feature_id));
                feature_ids(rf).lemma_push_to_set_commute(fg.feature_id);
                // bucket keys
                assert(features_bucket_keys(rf2) =~= features_bucket_keys(rf).push(fbk));
                features_bucket_keys(rf).lemma_flatten_push(fbk);
                vstd::seq_lib::seq_to_set_distributes_over_add(
                    features_bucket_keys(rf).flatten(),
                    fbk,
                );
                assert(keys@.to_set() =~= features_bucket_keys(rf2).flatten().to_set());
                // contributing observations
                let cpf2 = contrib_per_feature(fs.take(i as int + 1), filt);
                assert(cpf2 =~= contrib_per_feature(fs.take(i as int), filt).push(
                    contrib_obs_of_feature(fg, filt),
                ));
                contrib_per_feature(fs.take(i as int), filt).lemma_flatten_push(
                    contrib_obs_of_feature(fg, filt),
                );
                assert(contrib_obs(fs.take(i as int + 1), filt) =~= cs);
                rf = rf2;
            }
        } else {
            proof {
                assert(retained_features(fs.take(i as int + 1), filt) == rf);
                assert(contrib_per_feature(fs.take(i as int + 1), filt) == contrib_per_feature(
                    fs.take(i as int),
                    filt,
                ));
            }
        }
        i = i + 1;
    }
    proof {
        assert(fs.take(fs.len() as int) =~= fs);
    }
    if count == 0 {
        return None;
    }
    let associated_buckets = flatten_keys(&keys);
    Some(
        ManifestInterval {
            start: interval.start,
            count,
            reos,
            features: feats,
            associated_buckets,
            min_sig,
            max_abs_effect: max_eff,
        },
    )
}

} // verus!
