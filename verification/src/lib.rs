//! A verified builder of pre-aggregated coverage manifests: per genomic
//! interval, the features surviving a facet filter are summarized (counts,
//! minimum significance, maximum-magnitude effect size, deduplicated
//! visualization buckets); dataset-wide distinct counts and the numeric
//! slider ranges of the filtered subset complete the manifest.

pub mod agg;
pub mod assemble;
pub mod laws;
pub mod manifest;
pub mod facets;
pub mod model;
pub mod stats;
