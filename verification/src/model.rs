//! The input data model: a coverage dataset as plain values.
//!
//! Significance and effect-size measurements enter the library as
//! order-preserving `u64` keys (smaller key = smaller measurement), so every
//! comparison the engine makes is exact integer arithmetic. The boundary code
//! that loads a dataset chooses the encoding; the engine only relies on the
//! keys' order.

use vstd::prelude::*;

verus! {

/// One fixed-size visual aggregation cell: a chromosome index paired with a
/// bucket index inside that chromosome.
#[derive(Clone, Copy, PartialEq, Eq, Structural, Debug)]
pub struct BucketLoc {
    pub chrom: u32,
    pub idx: u32,
}

/// A signed effect size, as the key ordering its absolute value (`mag`) and
/// the key ordering its signed value (`key`).
#[derive(Clone, Copy, PartialEq, Eq, Structural, Debug)]
pub struct EffectVal {
    pub mag: u64,
    pub key: u64,
}

/// One recorded interaction touching a feature: the interaction ("REO")
/// identifier, the facet ids it carries, its significance key (lower = more
/// significant) and its effect size.
#[derive(Clone, Debug)]
pub struct Observation {
    pub reo_id: u64,
    pub facet_ids: Vec<u64>,
    pub sig_key: u64,
    pub effect: EffectVal,
}

/// A feature inside one interval: its identifier, the buckets it spans, and
/// the observations recorded against it.
#[derive(Clone, Debug)]
pub struct FeatureGroup {
    pub feature_id: u64,
    pub buckets: Vec<BucketLoc>,
    pub observations: Vec<Observation>,
}

/// One genomic interval: its start coordinate and its features.
#[derive(Clone, Debug)]
pub struct IntervalRecord {
    pub start: u32,
    pub features: Vec<FeatureGroup>,
}

/// One chromosome of the input dataset.
#[derive(Clone, Debug)]
pub struct ChromosomeRecord {
    pub name: String,
    pub bucket_size: u32,
    pub source_intervals: Vec<IntervalRecord>,
    pub target_intervals: Vec<IntervalRecord>,
}

/// A numeric slider range, as a pair of order keys.
#[derive(Clone, Copy, PartialEq, Eq, Structural, Debug)]
pub struct NumRange {
    pub lo: u64,
    pub hi: u64,
}

/// A facet descriptor: identifier, display name, kind, and the optional
/// numeric ranges a client shows as slider bounds (`range` for effect sizes,
/// `range64` for significance values, mirroring the output format).
#[derive(Clone, Debug)]
pub struct FacetDescriptor {
    pub id: u64,
    pub name: String,
    pub kind: String,
    pub range: Option<NumRange>,
    pub range64: Option<NumRange>,
}

/// The whole input dataset.
#[derive(Clone, Debug)]
pub struct CoverageDataset {
    pub chromosomes: Vec<ChromosomeRecord>,
    pub facets: Vec<FacetDescriptor>,
}

/// Does observation `o` carry at least one facet id present in `filter`?
pub open spec fn obs_matches(o: Observation, filter: Seq<u64>) -> bool {
    exists|i: int| 0 <= i < o.facet_ids@.len() && filter.contains(o.facet_ids@[i])
}

/// Does observation `o` contribute to the summary statistics under `filter`?
/// An empty filter disables filtering: every observation contributes.
pub open spec fn obs_contributes(o: Observation, filter: Seq<u64>) -> bool {
    filter.len() == 0 || obs_matches(o, filter)
}

/// Is feature `f` retained under `filter`? An empty filter retains every
/// feature; a non-empty filter retains a feature iff at least one of its
/// observations matches.
pub open spec fn feature_retained(f: FeatureGroup, filter: Seq<u64>) -> bool {
    filter.len() == 0 || exists|i: int|
        0 <= i < f.observations@.len() && obs_matches(f.observations@[i], filter)
}

/// `feature_retained` as a predicate value, for `Seq::filter`.
pub open spec fn retained_pred(filter: Seq<u64>) -> spec_fn(FeatureGroup) -> bool {
    |f: FeatureGroup| feature_retained(f, filter)
}

/// `obs_contributes` as a predicate value, for `Seq::filter`.
pub open spec fn contrib_pred(filter: Seq<u64>) -> spec_fn(Observation) -> bool {
    |o: Observation| obs_contributes(o, filter)
}

/// The features of `fs` retained under `filter`, in input order.
pub open spec fn retained_features(fs: Seq<FeatureGroup>, filter: Seq<u64>) -> Seq<FeatureGroup> {
    fs.filter(retained_pred(filter))
}

/// The observations of feature `f` that contribute under `filter`, in input
/// order.
pub open spec fn contrib_obs_of_feature(f: FeatureGroup, filter: Seq<u64>) -> Seq<Observation> {
    f.observations@.filter(contrib_pred(filter))
}

/// The contributing observations of each retained feature of `fs`, one
/// sequence per retained feature, in feature order.
pub open spec fn contrib_per_feature(fs: Seq<FeatureGroup>, filter: Seq<u64>) -> Seq<
    Seq<Observation>,
> {
    retained_features(fs, filter).map_values(
        |f: FeatureGroup| contrib_obs_of_feature(f, filter),
    )
}

/// All contributing observations of the features `fs` under `filter`:
/// features in input order, and within each retained feature its contributing
/// observations in input order.
pub open spec fn contrib_obs(fs: Seq<FeatureGroup>, filter: Seq<u64>) -> Seq<Observation> {
    contrib_per_feature(fs, filter).flatten()
}

/// The REO ids of the observations of `s`, in order.
pub open spec fn reo_ids(s: Seq<Observation>) -> Seq<u64> {
    s.map_values(|o: Observation| o.reo_id)
}

/// The feature ids of the features of `fs`, in order.
pub open spec fn feature_ids(fs: Seq<FeatureGroup>) -> Seq<u64> {
    fs.map_values(|f: FeatureGroup| f.feature_id)
}

} // verus!
