//! The manifest assembler: resolves the genome identifier, assembles every
//! chromosome, collects the global counts, overlays the recomputed facet
//! ranges, and produces the output manifest.

use vstd::prelude::*;

use crate::assemble::{ManifestChromosomeData, assembled_chrom};
use crate::facets::{
    dataset_contrib, effect_range_of, facet_overlaid, recompute_facet_ranges, sig_range_of,
};
use crate::model::{CoverageDataset, FacetDescriptor};
use crate::stats::{collect, dataset_reo_set, dataset_source_set, dataset_target_set,
    lemma_assembled_unions};

verus! {

/// Reference-genome information carried into the output manifest.
#[derive(Clone, Debug)]
pub struct GenomeInfo {
    pub file: String,
    pub name: String,
}

/// The assembled output manifest.
#[derive(Clone, Debug)]
pub struct Manifest {
    pub chromosomes: Vec<ManifestChromosomeData>,
    pub default_facets: Vec<u64>,
    pub facets: Vec<FacetDescriptor>,
    pub reo_count: u64,
    pub source_count: u64,
    pub target_count: u64,
    pub genome: GenomeInfo,
}

/// The errors a build can fail with.
#[derive(Clone, Copy, PartialEq, Eq, Structural, Debug)]
pub enum BuildError {
    /// The genome identifier is not one of the supported references.
    InvalidGenome,
}

/// Copies a list of ids.
fn copy_ids(v: &Vec<u64>) -> (r: Vec<u64>)
    ensures
        r@ == v@,
{
    let mut r: Vec<u64> = Vec::new();
    let mut i: usize = 0;
    while i < v.len()
        invariant
            0 <= i <= v@.len(),
            r@ == v@.take(i as int),
        decreases v@.len() - i,
    {
        proof {
            assert(v@.take(i as int + 1) =~= v@.take(i as int).push(v@[i as int]));
        }
        r.push(v[i]);
        i = i + 1;
    }
    proof {
        assert(v@.take(v@.len() as int) =~= v@);
    }
    r
}

/// Is `m` the manifest built from `data` with the given genome name and
/// default facet filter? This pins the whole output: genome resolution, the
/// assembled chromosomes in input order, the pass-through default facet list,
/// the overlaid facet descriptors, and the three dataset-wide distinct
/// counts, all computed from the filtered dataset.
pub open spec fn is_manifest(
    data: CoverageDataset,
    genome: Seq<char>,
    filter: Seq<u64>,
    m: Manifest,
) -> bool {
    &&& m.genome.name@ == genome
    &&& (genome == "GRCH38"@ ==> m.genome.file@ == "grch38.json"@)
    &&& (genome == "GRCH37"@ ==> m.genome.file@ == "grch37.json"@)
    &&& m.default_facets@ == filter
    &&& m.chromosomes@.len() == data.chromosomes@.len()
    &&& (forall|i: int|
        0 <= i < data.chromosomes@.len() ==> assembled_chrom(
            data.chromosomes@[i],
            filter,
            #[trigger] m.chromosomes@[i],
        ))
    &&& m.reo_count == dataset_reo_set(data.chromosomes@, filter).len()
    &&& m.source_count == dataset_source_set(data.chromosomes@, filter).len()
    &&& m.target_count == dataset_target_set(data.chromosomes@, filter).len()
    &&& m.facets@.len() == data.facets@.len()
    &&& (forall|i: int|
        0 <= i < data.facets@.len() ==> facet_overlaid(
            data.facets@[i],
            sig_range_of(dataset_contrib(data.chromosomes@, filter)),
            effect_range_of(dataset_contrib(data.chromosomes@, filter)),
            #[trigger] m.facets@[i],
        ))
}

/// Builds the manifest for `data` under the default facet filter. Succeeds
/// exactly for the supported genome identifiers "GRCH38" and "GRCH37"; any
/// other identifier fails with `InvalidGenome` before any aggregation runs,
/// and no partial manifest exists.
pub fn build_manifest(data: &CoverageDataset, genome: &String, default_facets: &Vec<u64>) -> (r:
    Result<Manifest, BuildError>)
    ensures
        r is Ok <==> (genome@ == "GRCH38"@ || genome@ == "GRCH37"@),
        r is Err ==> r == Result::<Manifest, BuildError>::Err(BuildError::InvalidGenome),
        r matches Ok(m) ==> is_manifest(*data, genome@, default_facets@, m),
{
    proof {
        reveal_strlit("GRCH38");
        reveal_strlit("GRCH37");
        assert("GRCH38"@[5] != "GRCH37"@[5]);
        assert("GRCH38"@ != "GRCH37"@);
    }
    let g38: String = "GRCH38".to_owned();
    let g37: String = "GRCH37".to_owned();
    let file: String;
    if *genome == g38 {
        file = "grch38.json".to_owned();
    } else if *genome == g37 {
        file = "grch37.json".to_owned();
    } else {
        return Err(BuildError::InvalidGenome);
    }
    let ghost chs = data.chromosomes@;
    let ghost filt = default_facets@;
    let mut chromosomes: Vec<ManifestChromosomeData> = Vec::new();
    let mut i: usize = 0;
    while i < data.chromosomes.len()
        invariant
            0 <= i <= chs.len(),
            chs == data.chromosomes@,
            filt == default_facets@,
            chromosomes@.len() == i,
            forall|k: int|
                0 <= k < i ==> assembled_chrom(chs[k], filt, #[trigger] chromosomes@[k]),
        decreases chs.len() - i,
    {
        chromosomes.push(ManifestChromosomeData::from(&data.chromosomes[i], default_facets));
        i = i + 1;
    }
    let counts = collect(&chromosomes);
    proof {
        lemma_assembled_unions(chs, filt, chromosomes@);
    }
    let facets = recompute_facet_ranges(&data.facets, &data.chromosomes, default_facets);
    Ok(
        Manifest {
            chromosomes,
            default_facets: copy_ids(default_facets),
            facets,
            reo_count: counts.0,
            source_count: counts.1,
            target_count: counts.2,
            genome: GenomeInfo { file, name: genome.clone() },
        },
    )
}

} // verus!
