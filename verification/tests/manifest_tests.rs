use cov_viz_manifest::agg::aggregate;
use cov_viz_manifest::assemble::ManifestChromosomeData;
use cov_viz_manifest::facets::{compute_numeric_intervals, recompute_facet_ranges};
use cov_viz_manifest::manifest::{build_manifest, BuildError};
use cov_viz_manifest::model::{
    BucketLoc, ChromosomeRecord, CoverageDataset, EffectVal, FacetDescriptor, FeatureGroup,
    IntervalRecord, NumRange, Observation,
};
use cov_viz_manifest::stats::collect;

/// Order-preserving encoding of an `f64` measurement as a `u64` key.
fn key_f64(x: f64) -> u64 {
    let b = x.to_bits();
    if b & (1u64 << 63) != 0 {
        !b
    } else {
        b ^ (1u64 << 63)
    }
}

/// Order-preserving encoding of an `f32` measurement as a `u64` key.
fn key_f32(x: f32) -> u64 {
    let b = x.to_bits();
    (if b & (1u32 << 31) != 0 { !b } else { b ^ (1u32 << 31) }) as u64
}

/// Magnitude key of an `f32` effect size: orders by absolute value.
fn mag_f32(x: f32) -> u64 {
    x.abs().to_bits() as u64
}

fn obs(reo: u64, facets: &[u64], sig: f64, eff: f32) -> Observation {
    Observation {
        reo_id: reo,
        facet_ids: facets.to_vec(),
        sig_key: key_f64(sig),
        effect: EffectVal { mag: mag_f32(eff), key: key_f32(eff) },
    }
}

fn feature(id: u64, buckets: &[(u32, u32)], observations: Vec<Observation>) -> FeatureGroup {
    FeatureGroup {
        feature_id: id,
        buckets: buckets.iter().map(|&(c, i)| BucketLoc { chrom: c, idx: i }).collect(),
        observations,
    }
}

/// The example chromosome: chr1, bucket size 1000, one source interval at
/// start 500 with feature A (id 1, buckets {(0,5)}, REO 10, facets {1},
/// sig 0.01, effect 2.0) and feature B (id 2, buckets {(0,6)}, REO 11,
/// facets {2}, sig 0.5, effect -3.0).
fn example_chromosome() -> ChromosomeRecord {
    let a = feature(1, &[(0, 5)], vec![obs(10, &[1], 0.01, 2.0)]);
    let b = feature(2, &[(0, 6)], vec![obs(11, &[2], 0.5, -3.0)]);
    ChromosomeRecord {
        name: "chr1".to_owned(),
        bucket_size: 1000,
        source_intervals: vec![IntervalRecord { start: 500, features: vec![a, b] }],
        target_intervals: vec![],
    }
}

fn example_dataset() -> CoverageDataset {
    CoverageDataset { chromosomes: vec![example_chromosome()], facets: vec![] }
}

#[test]
fn scenario_filter_one() {
    let chrom = example_chromosome();
    let filter: Vec<u64> = vec![1];
    let m = aggregate(&chrom.source_intervals[0], &filter).expect("interval retained");
    assert_eq!(m.start, 500);
    assert_eq!(m.count, 1);
    assert_eq!(m.reos, vec![10]);
    assert_eq!(m.features, vec![1]);
    assert_eq!(m.associated_buckets, vec![0, 5]);
    assert_eq!(m.min_sig, Some(key_f64(0.01)));
    assert_eq!(m.max_abs_effect, Some(EffectVal { mag: mag_f32(2.0), key: key_f32(2.0) }));

    let assembled = ManifestChromosomeData::from(&chrom, &filter);
    let counts = collect(&vec![assembled]);
    assert_eq!(counts.0, 1);
    assert_eq!(counts.1, 1);
    assert_eq!(counts.2, 0);
}

#[test]
fn scenario_filter_empty() {
    let chrom = example_chromosome();
    let filter: Vec<u64> = vec![];
    let m = aggregate(&chrom.source_intervals[0], &filter).expect("interval retained");
    assert_eq!(m.count, 2);
    assert_eq!(m.reos, vec![10, 11]);
    assert_eq!(m.features, vec![1, 2]);
    assert_eq!(m.associated_buckets, vec![0, 5, 0, 6]);
    assert_eq!(m.min_sig, Some(key_f64(0.01)));
    // Processing A then B: 0 -> 2.0 -> -3.0: larger magnitude overwrites.
    assert_eq!(m.max_abs_effect, Some(EffectVal { mag: mag_f32(-3.0), key: key_f32(-3.0) }));
}

#[test]
fn scenario_invalid_genome() {
    let data = example_dataset();
    let r = build_manifest(&data, &"GRCH39".to_owned(), &vec![]);
    assert!(matches!(r, Err(BuildError::InvalidGenome)));
}

#[test]
fn empty_filter_count_equals_raw() {
    let fs = vec![
        feature(1, &[], vec![obs(1, &[1], 0.1, 1.0)]),
        feature(2, &[], vec![]),
        feature(3, &[], vec![obs(2, &[2], 0.2, -1.0)]),
    ];
    let interval = IntervalRecord { start: 0, features: fs };
    let m = aggregate(&interval, &vec![]).expect("interval retained");
    assert_eq!(m.count, 3);
    assert_eq!(m.features, vec![1, 2, 3]);
}

#[test]
fn nonempty_filter_bounds_count_and_drops_empty() {
    let fs = vec![
        feature(1, &[], vec![obs(1, &[1], 0.1, 1.0)]),
        feature(2, &[], vec![obs(2, &[2], 0.2, 1.0)]),
    ];
    let interval = IntervalRecord { start: 0, features: fs };
    let m = aggregate(&interval, &vec![2]).expect("interval retained");
    assert!(m.count <= 2);
    assert_eq!(m.count, 1);
    // A filter matching nothing drops the interval entirely.
    assert!(aggregate(&interval, &vec![99]).is_none());
}

#[test]
fn min_sig_is_exact_minimum() {
    let fs = vec![feature(
        1,
        &[],
        vec![
            obs(1, &[1], 0.5, 1.0),
            obs(2, &[1], 0.003, 1.0),
            obs(3, &[1], 0.25, 1.0),
        ],
    )];
    let interval = IntervalRecord { start: 0, features: fs };
    let m = aggregate(&interval, &vec![]).expect("interval retained");
    assert_eq!(m.min_sig, Some(key_f64(0.003)));
    for sig in [0.5, 0.003, 0.25] {
        assert!(m.min_sig.unwrap() <= key_f64(sig));
    }
}

#[test]
fn max_abs_effect_tie_later_wins() {
    let fs = vec![feature(
        1,
        &[],
        vec![obs(1, &[1], 0.1, 2.0), obs(2, &[1], 0.1, -2.0)],
    )];
    let interval = IntervalRecord { start: 0, features: fs };
    let m = aggregate(&interval, &vec![]).expect("interval retained");
    // Equal magnitudes: the later observation's signed value wins.
    assert_eq!(m.max_abs_effect, Some(EffectVal { mag: mag_f32(-2.0), key: key_f32(-2.0) }));

    let fs2 = vec![feature(
        1,
        &[],
        vec![obs(1, &[1], 0.1, -5.0), obs(2, &[1], 0.1, 3.0)],
    )];
    let interval2 = IntervalRecord { start: 0, features: fs2 };
    let m2 = aggregate(&interval2, &vec![]).expect("interval retained");
    // A strictly smaller magnitude never replaces the selection.
    assert_eq!(m2.max_abs_effect, Some(EffectVal { mag: mag_f32(-5.0), key: key_f32(-5.0) }));
}

#[test]
fn global_counts_ignore_dropped_intervals() {
    // Two chromosomes; the second's only interval matches nothing and is
    // dropped, so it adds nothing to any count. REO 10 repeats across
    // chromosomes and is counted once.
    let c1 = ChromosomeRecord {
        name: "chr1".to_owned(),
        bucket_size: 1000,
        source_intervals: vec![IntervalRecord {
            start: 0,
            features: vec![feature(1, &[], vec![obs(10, &[1], 0.1, 1.0)])],
        }],
        target_intervals: vec![IntervalRecord {
            start: 0,
            features: vec![feature(7, &[], vec![obs(10, &[1], 0.1, 1.0)])],
        }],
    };
    let c2 = ChromosomeRecord {
        name: "chr2".to_owned(),
        bucket_size: 1000,
        source_intervals: vec![IntervalRecord {
            start: 0,
            features: vec![feature(2, &[], vec![obs(11, &[9], 0.1, 1.0)])],
        }],
        target_intervals: vec![],
    };
    let filter = vec![1];
    let assembled: Vec<ManifestChromosomeData> =
        vec![ManifestChromosomeData::from(&c1, &filter), ManifestChromosomeData::from(&c2, &filter)];
    assert!(assembled[1].source_intervals.is_empty());
    let counts = collect(&assembled);
    assert_eq!(counts.0, 1); // REO 10, once
    assert_eq!(counts.1, 1); // source feature 1
    assert_eq!(counts.2, 1); // target feature 7
}

#[test]
fn intervals_sorted_ascending_stable() {
    let iv = |start: u32, fid: u64| IntervalRecord {
        start,
        features: vec![feature(fid, &[], vec![obs(fid, &[1], 0.1, 1.0)])],
    };
    let chrom = ChromosomeRecord {
        name: "chr1".to_owned(),
        bucket_size: 1000,
        source_intervals: vec![iv(500, 1), iv(100, 2), iv(300, 3), iv(100, 4)],
        target_intervals: vec![iv(9, 5), iv(3, 6)],
    };
    let r = ManifestChromosomeData::from(&chrom, &vec![]);
    let starts: Vec<u32> = r.source_intervals.iter().map(|m| m.start).collect();
    assert_eq!(starts, vec![100, 100, 300, 500]);
    // Equal starts keep their input order: feature 2 before feature 4.
    assert_eq!(r.source_intervals[0].features, vec![2]);
    assert_eq!(r.source_intervals[1].features, vec![4]);
    let tstarts: Vec<u32> = r.target_intervals.iter().map(|m| m.start).collect();
    assert_eq!(tstarts, vec![3, 9]);
}

#[test]
fn numeric_intervals_reflect_filtered_subset() {
    let chroms = vec![example_chromosome()];
    // Empty filter: both observations contribute.
    let (sig, eff) = compute_numeric_intervals(&chroms, &vec![]);
    assert_eq!(sig, Some(NumRange { lo: key_f64(0.01), hi: key_f64(0.5) }));
    assert_eq!(eff, Some(NumRange { lo: key_f32(-3.0), hi: key_f32(2.0) }));
    // Filter {1}: only feature A's observation contributes.
    let (sig1, eff1) = compute_numeric_intervals(&chroms, &vec![1]);
    assert_eq!(sig1, Some(NumRange { lo: key_f64(0.01), hi: key_f64(0.01) }));
    assert_eq!(eff1, Some(NumRange { lo: key_f32(2.0), hi: key_f32(2.0) }));
    // Nothing contributes: no ranges.
    let (sig9, eff9) = compute_numeric_intervals(&chroms, &vec![99]);
    assert_eq!(sig9, None);
    assert_eq!(eff9, None);
}

#[test]
fn facet_ranges_overlaid_only_for_named_facets() {
    let facet = |id: u64, name: &str| FacetDescriptor {
        id,
        name: name.to_owned(),
        kind: "numeric".to_owned(),
        range: Some(NumRange { lo: 1, hi: 2 }),
        range64: Some(NumRange { lo: 3, hi: 4 }),
    };
    let facets = vec![facet(1, "Significance"), facet(2, "Effect Size"), facet(3, "Other")];
    let chroms = vec![example_chromosome()];
    let r = recompute_facet_ranges(&facets, &chroms, &vec![]);
    assert_eq!(r.len(), 3);
    // "Significance" takes the recomputed significance interval in range64.
    assert_eq!(r[0].range64, Some(NumRange { lo: key_f64(0.01), hi: key_f64(0.5) }));
    assert_eq!(r[0].range, Some(NumRange { lo: 1, hi: 2 }));
    // "Effect Size" takes the recomputed effect interval in range.
    assert_eq!(r[1].range, Some(NumRange { lo: key_f32(-3.0), hi: key_f32(2.0) }));
    assert_eq!(r[1].range64, Some(NumRange { lo: 3, hi: 4 }));
    // Every other facet passes through unchanged.
    assert_eq!(r[2].range, Some(NumRange { lo: 1, hi: 2 }));
    assert_eq!(r[2].range64, Some(NumRange { lo: 3, hi: 4 }));
    assert_eq!(r[2].name, "Other");
}

#[test]
fn genome_resolution() {
    let data = example_dataset();
    let m38 = build_manifest(&data, &"GRCH38".to_owned(), &vec![]).expect("supported genome");
    assert_eq!(m38.genome.file, "grch38.json");
    assert_eq!(m38.genome.name, "GRCH38");
    let m37 = build_manifest(&data, &"GRCH37".to_owned(), &vec![]).expect("supported genome");
    assert_eq!(m37.genome.file, "grch37.json");
    assert_eq!(m37.genome.name, "GRCH37");
}

#[test]
fn buckets_deduplicated_and_sorted() {
    let fs = vec![
        feature(1, &[(0, 6), (0, 5), (0, 5)], vec![obs(1, &[1], 0.1, 1.0)]),
        feature(2, &[(0, 5), (1, 0)], vec![obs(2, &[1], 0.1, 1.0)]),
    ];
    let interval = IntervalRecord { start: 0, features: fs };
    let m = aggregate(&interval, &vec![]).expect("interval retained");
    assert_eq!(m.associated_buckets, vec![0, 5, 0, 6, 1, 0]);
}

#[test]
fn bucket_list_is_feature_granular() {
    // Feature A has one matching and one non-matching observation: the
    // feature's whole bucket set is kept, but only the matching observation
    // contributes to the statistics.
    let fs = vec![feature(
        1,
        &[(0, 1), (0, 2)],
        vec![obs(10, &[1], 0.5, 1.0), obs(11, &[2], 0.01, 9.0)],
    )];
    let interval = IntervalRecord { start: 0, features: fs };
    let m = aggregate(&interval, &vec![1]).expect("interval retained");
    assert_eq!(m.associated_buckets, vec![0, 1, 0, 2]);
    assert_eq!(m.reos, vec![10]);
    assert_eq!(m.min_sig, Some(key_f64(0.5)));
    assert_eq!(m.max_abs_effect, Some(EffectVal { mag: mag_f32(1.0), key: key_f32(1.0) }));
}

#[test]
fn build_manifest_assembles_everything() {
    let mut data = example_dataset();
    data.facets = vec![FacetDescriptor {
        id: 9,
        name: "Significance".to_owned(),
        kind: "numeric".to_owned(),
        range: None,
        range64: None,
    }];
    let filter = vec![1, 2];
    let m = build_manifest(&data, &"GRCH38".to_owned(), &filter).expect("supported genome");
    assert_eq!(m.default_facets, vec![1, 2]);
    assert_eq!(m.chromosomes.len(), 1);
    assert_eq!(m.chromosomes[0].chrom, "chr1");
    assert_eq!(m.chromosomes[0].bucket_size, 1000);
    assert_eq!(m.chromosomes[0].source_intervals.len(), 1);
    assert_eq!(m.chromosomes[0].source_intervals[0].count, 2);
    assert_eq!(m.reo_count, 2);
    assert_eq!(m.source_count, 2);
    assert_eq!(m.target_count, 0);
    assert_eq!(m.facets.len(), 1);
    assert_eq!(
        m.facets[0].range64,
        Some(NumRange { lo: key_f64(0.01), hi: key_f64(0.5) })
    );
    assert_eq!(m.genome.file, "grch38.json");
}
