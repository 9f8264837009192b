//! The integer side of face clustering: the cases that need no clustering run, the
//! count of clusters found in a labelling, and the face ids that a labelling assigns.

use vstd::prelude::*;

verus! {

/// Configuration of the density-based clustering of face embeddings.
#[derive(Clone, Debug)]
pub struct ClusteringConfig {
    /// Minimum cluster size.
    pub min_cluster_size: usize,
    /// Minimum number of samples in a neighbourhood for a point to be a core point;
    /// when absent, the minimum cluster size is used.
    pub min_samples: Option<usize>,
}

impl Default for ClusteringConfig {
    fn default() -> (config: Self)
        ensures
            config.min_cluster_size == 2,
            config.min_samples is None,
    {
        ClusteringConfig { min_cluster_size: 2, min_samples: None }
    }
}

/// The labelling of a set of embeddings: `-1` marks noise, a non-negative label names
/// a cluster.
pub struct ClusteringResult {
    /// The label of each embedding, in input order.
    pub labels: Vec<i32>,
    /// The number of clusters found, noise excluded.
    pub n_clusters: usize,
}

/// The labels that name clusters.
pub open spec fn cluster_labels(labels: Seq<i32>) -> Set<i32> {
    labels.to_set().filter(|label: i32| label >= 0)
}

/// The number of clusters that a labelling names.
pub open spec fn spec_n_clusters(labels: Seq<i32>) -> nat {
    cluster_labels(labels).len()
}

/// The minimum number of samples handed to the clustering run.
pub fn effective_min_samples(config: &ClusteringConfig) -> (min_samples: usize)
    ensures
        min_samples == match config.min_samples {
            Some(m) => m,
            None => config.min_cluster_size,
        },
{
    match config.min_samples {
        Some(m) => m,
        None => config.min_cluster_size,
    }
}

/// The result for inputs that need no clustering run: none for no embeddings, and all
/// noise for fewer embeddings than the minimum cluster size. `None` when a run is needed.
pub fn trivial_clustering(n_embeddings: usize, config: &ClusteringConfig) -> (result: Option<
    ClusteringResult,
>)
    ensures
        n_embeddings == 0 ==> (result matches Some(r) && r.labels@.len() == 0 && r.n_clusters == 0),
        0 < n_embeddings < config.min_cluster_size ==> (result matches Some(r) && r.n_clusters == 0
            && r.labels@ == Seq::new(n_embeddings as nat, |i: int| -1i32)),
        n_embeddings > 0 && n_embeddings >= config.min_cluster_size ==> result is None,
{
    if n_embeddings == 0 {
        return Some(ClusteringResult { labels: Vec::new(), n_clusters: 0 });
    }
    if n_embeddings < config.min_cluster_size {
        let mut labels: Vec<i32> = Vec::new();
        let mut i: usize = 0;
        while i < n_embeddings
            invariant
                i <= n_embeddings,
                labels@ == Seq::new(i as nat, |k: int| -1i32),
            decreases n_embeddings - i,
        {
            labels.push(-1);
            i = i + 1;
            assert(labels@ =~= Seq::new(i as nat, |k: int| -1i32));
        }
        return Some(ClusteringResult { labels, n_clusters: 0 });
    }
    None
}

/// Wraps the labels of a clustering run with the number of distinct non-negative labels.
pub fn clustering_result_from_labels(labels: Vec<i32>) -> (result: ClusteringResult)
    ensures
        result.labels@ == labels@,
        result.n_clusters == spec_n_clusters(labels@),
{
    let mut seen: Vec<i32> = Vec::new();
    let mut i: usize = 0;
    while i < labels.len()
        invariant
            i <= labels@.len(),
            seen@.no_duplicates(),
            seen@.to_set() == cluster_labels(labels@.take(i as int)),
            seen@.len() <= i,
        decreases labels@.len() - i,
    {
        let label: i32 = labels[i];
        let ghost prefix = labels@.take(i as int);
        assert(labels@.take(i + 1) =~= prefix.push(label));
        proof {
            lemma_push_to_set(prefix, label);
        }
        if label >= 0 {
            let mut found = false;
            let mut j: usize = 0;
            while j < seen.len()
                invariant
                    j <= seen@.len(),
                    found <==> exists|k: int| 0 <= k < j && seen@[k] == label,
                decreases seen@.len() - j,
            {
                if seen[j] == label {
                    found = true;
                }
                j = j + 1;
            }
            if !found {
                let ghost old_seen = seen@;
                seen.push(label);
                proof {
                    assert(!old_seen.contains(label));
                    assert forall|a: int, b: int| 0 <= a < b < seen@.len() implies seen@[a]
                        != seen@[b] by {
                        if b == seen@.len() - 1 {
                            assert(seen@[b] == label);
                            assert(old_seen[a] == seen@[a]);
                        } else {
                            assert(old_seen[a] == seen@[a]);
                            assert(old_seen[b] == seen@[b]);
                        }
                    }
                    assert(seen@ =~= old_seen.push(label));
                    lemma_push_to_set(old_seen, label);
                }
            } else {
                assert(seen@.contains(label));
            }
            assert(seen@.to_set() =~= cluster_labels(labels@.take(i + 1)));
        } else {
            assert(cluster_labels(labels@.take(i + 1)) =~= cluster_labels(prefix));
        }
        i = i + 1;
    }
    assert(labels@.take(i as int) =~= labels@);
    proof {
        seen@.unique_seq_to_set();
    }
    let n_clusters: usize = seen.len();
    ClusteringResult { labels, n_clusters }
}

/// Appending to a sequence adds the element to its set of elements.
proof fn lemma_push_to_set(s: Seq<i32>, x: i32)
    ensures
        s.push(x).to_set() == s.to_set().insert(x),
{
    Seq::lemma_to_set_insert_commutes(s, x);
    assert(s.push(x) =~= s + seq![x]);
}

/// The face id that a label assigns: the label itself for a cluster, none for noise.
pub open spec fn face_id_of_label(label: i32) -> Option<u32> {
    if label >= 0 {
        Some(label as u32)
    } else {
        None
    }
}

/// Pairs each detection with the face id its label assigns; the pairing stops at the
/// shorter of the two lists.
pub fn face_id_updates(detection_ids: &[u32], labels: &[i32]) -> (updates: Vec<(u32, Option<u32>)>)
    ensures
        updates@.len() == if detection_ids@.len() <= labels@.len() {
            detection_ids@.len()
        } else {
            labels@.len()
        },
        forall|i: int|
            0 <= i < updates@.len() ==> #[trigger] updates@[i] == (
                detection_ids@[i],
                face_id_of_label(labels@[i]),
            ),
{
    let mut updates: Vec<(u32, Option<u32>)> = Vec::new();
    let mut i: usize = 0;
    while i < detection_ids.len() && i < labels.len()
        invariant
            i <= detection_ids@.len(),
            i <= labels@.len(),
            updates@.len() == i,
            forall|k: int|
                0 <= k < i ==> #[trigger] updates@[k] == (
                    detection_ids@[k],
                    face_id_of_label(labels@[k]),
                ),
        decreases detection_ids@.len() - i,
    {
        let label: i32 = labels[i];
        let face_id = if label >= 0 {
            Some(label as u32)
        } else {
            None
        };
        updates.push((detection_ids[i], face_id));
        i = i + 1;
    }
    updates
}

/// The stored size in bytes of one face embedding: 512 four-byte floats.
pub const EMBEDDING_BYTES: usize = 2048;

/// The rows whose stored embedding has the full size, in order, each with its
/// detection id narrowed to 32 bits.
pub open spec fn full_embedding_rows(rows: Seq<(i64, Vec<u8>)>) -> Seq<(u32, Vec<u8>)>
    decreases rows.len(),
{
    if rows.len() == 0 {
        Seq::empty()
    } else {
        let before = full_embedding_rows(rows.drop_last());
        let (id, blob) = rows.last();
        if blob@.len() == EMBEDDING_BYTES {
            before.push((id as u32, blob))
        } else {
            before
        }
    }
}

/// Keeps the stored embeddings that have the full size; the others are skipped.
pub fn rows_with_full_embeddings(rows: Vec<(i64, Vec<u8>)>) -> (kept: Vec<(u32, Vec<u8>)>)
    ensures
        kept@ == full_embedding_rows(rows@),
{
    let ghost all = rows@;
    let mut kept: Vec<(u32, Vec<u8>)> = Vec::new();
    for row in it: rows.into_iter()
        invariant
            it.seq() == all,
            kept@ == full_embedding_rows(all.take(it.index() as int)),
    {
        let ghost i = it.index();
        assert(all.take(i + 1).drop_last() =~= all.take(i as int));
        let (detection_id, blob) = row;
        if blob.len() == EMBEDDING_BYTES {
            kept.push((detection_id as u32, blob));
        }
    }
    assert(all.take(all.len() as int) =~= all);
    kept
}

/// The face-id updates and the summary of clustering the stored faces: with no stored
/// embeddings (`None`), nothing is updated or processed; otherwise each detection gets
/// the face id of its label, and the summary counts the clusters and the detections.
pub fn cluster_faces_outcome(
    detection_ids: &[u32],
    clustering: Option<&ClusteringResult>,
) -> (outcome: (Vec<(u32, Option<u32>)>, ClusterFacesCommandResult))
    ensures
        clustering is None ==> outcome.0@.len() == 0 && outcome.1.n_clusters == 0
            && outcome.1.n_processed == 0,
        clustering matches Some(r) ==> {
            &&& outcome.1.n_clusters == r.n_clusters
            &&& outcome.1.n_processed == detection_ids@.len()
            &&& outcome.0@.len() == if detection_ids@.len() <= r.labels@.len() {
                detection_ids@.len()
            } else {
                r.labels@.len()
            }
            &&& forall|i: int|
                0 <= i < outcome.0@.len() ==> #[trigger] outcome.0@[i] == (
                    detection_ids@[i],
                    face_id_of_label(r.labels@[i]),
                )
        },
{
    match clustering {
        None => (Vec::new(), ClusterFacesCommandResult { n_clusters: 0, n_processed: 0 }),
        Some(r) => {
            let updates = face_id_updates(detection_ids, r.labels.as_slice());
            (updates, ClusterFacesCommandResult { n_clusters: r.n_clusters, n_processed: detection_ids.len() })
        },
    }
}

/// What a clustering of the stored faces reports.
#[derive(Debug)]
pub struct ClusterFacesCommandResult {
    pub n_clusters: usize,
    pub n_processed: usize,
}

/// What embedding one detected face reports.
#[derive(Debug)]
pub struct CreateEmbeddingCommandResult {}

} // verus!
