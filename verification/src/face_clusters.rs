//! Grouping the face detections that the metadata store lists per face into clusters.

use std::collections::HashMap;
use vstd::prelude::*;

verus! {

/// The (face, detection) pairs that a cluster stands for, in order.
pub open spec fn cluster_rows(cluster: (u128, Seq<u128>)) -> Seq<(u128, u128)> {
    cluster.1.map_values(|detection: u128| (cluster.0, detection))
}

/// The (face, detection) pairs of all clusters, cluster after cluster.
pub open spec fn expand(clusters: Seq<(u128, Seq<u128>)>) -> Seq<(u128, u128)>
    decreases clusters.len(),
{
    if clusters.len() == 0 {
        Seq::empty()
    } else {
        expand(clusters.drop_last()) + cluster_rows(clusters.last())
    }
}

/// The clusters as (face, detections) with the detections as a sequence.
pub open spec fn clusters_view(clusters: Seq<(u128, Vec<u128>)>) -> Seq<(u128, Seq<u128>)> {
    Seq::new(clusters.len(), |k: int| (clusters[k].0, clusters[k].1@))
}

/// Every cluster holds a detection, and no two neighbouring clusters share a face.
pub open spec fn is_split_at_face_changes(clusters: Seq<(u128, Seq<u128>)>) -> bool {
    &&& forall|k: int| 0 <= k < clusters.len() ==> (#[trigger] clusters[k]).1.len() > 0
    &&& forall|k: int| 0 < k < clusters.len() ==> (#[trigger] clusters[k]).0 != clusters[k - 1].0
}

/// The faces of the rows appear in non-decreasing order.
pub open spec fn faces_sorted(rows: Seq<(u128, u128)>) -> bool {
    forall|i: int, j: int| 0 <= i <= j < rows.len() ==> rows[i].0 <= rows[j].0
}

/// Groups rows of (face, detection), listed face by face, into one cluster per run of
/// rows with the same face: each cluster holds the face and its detections in order.
pub fn group_face_clusters(rows: &[(u128, u128)]) -> (clusters: Vec<(u128, Vec<u128>)>)
    ensures
        expand(clusters_view(clusters@)) == rows@,
        is_split_at_face_changes(clusters_view(clusters@)),
{
    let mut clusters: Vec<(u128, Vec<u128>)> = Vec::new();
    let mut current_face: Option<u128> = None;
    let mut i: usize = 0;
    while i < rows.len()
        invariant
            i <= rows@.len(),
            expand(clusters_view(clusters@)) == rows@.take(i as int),
            is_split_at_face_changes(clusters_view(clusters@)),
            current_face is None <==> clusters@.len() == 0,
            clusters@.len() > 0 ==> current_face == Some(clusters@.last().0),
        decreases rows@.len() - i,
    {
        let (face, detection): (u128, u128) = rows[i];
        let ghost before = clusters_view(clusters@);
        assert(rows@.take(i + 1) =~= rows@.take(i as int).push((face, detection)));
        if current_face != Some(face) {
            current_face = Some(face);
            let mut detections: Vec<u128> = Vec::new();
            detections.push(detection);
            clusters.push((face, detections));
            proof {
                let after = clusters_view(clusters@);
                assert(detections@ =~= seq![detection]);
                assert(after =~= before.push((face, seq![detection])));
                assert(after.drop_last() =~= before);
                assert(cluster_rows(after.last()) =~= seq![(face, detection)]);
                assert(expand(after) =~= rows@.take(i + 1));
            }
        } else {
            let last = clusters.pop().unwrap();
            let (last_face, mut detections) = last;
            let ghost prev_detections = detections@;
            detections.push(detection);
            clusters.push((last_face, detections));
            proof {
                let after = clusters_view(clusters@);
                let prev_cluster = before.last();
                assert(last_face == face);
                assert(prev_detections == prev_cluster.1);
                assert(after =~= before.drop_last().push((face, prev_cluster.1.push(detection))));
                assert(after.drop_last() =~= before.drop_last());
                assert(cluster_rows(after.last()) =~= cluster_rows(prev_cluster).push((face, detection)));
                assert(expand(after) =~= rows@.take(i + 1));
                assert forall|k: int| 0 < k < after.len() implies (#[trigger] after[k]).0 != after[k - 1].0 by {
                    assert(after[k].0 == before[k].0);
                    assert(after[k - 1].0 == before[k - 1].0);
                }
            }
        }
        i = i + 1;
    }
    assert(rows@.take(i as int) =~= rows@);
    clusters
}

/// The last row of the expanded clusters belongs to the last cluster's face.
proof fn lemma_expand_last(clusters: Seq<(u128, Seq<u128>)>)
    requires
        clusters.len() > 0,
        is_split_at_face_changes(clusters),
    ensures
        expand(clusters).len() > 0,
        expand(clusters).last().0 == clusters.last().0,
{
    let last = clusters.last();
    assert(last.1.len() > 0);
    assert(cluster_rows(last).last().0 == last.0);
}

proof fn lemma_split_prefix(clusters: Seq<(u128, Seq<u128>)>)
    requires
        clusters.len() > 0,
        is_split_at_face_changes(clusters),
    ensures
        is_split_at_face_changes(clusters.drop_last()),
{
    let pre = clusters.drop_last();
    assert forall|k: int| 0 <= k < pre.len() implies (#[trigger] pre[k]).1.len() > 0 by {
        assert(pre[k] == clusters[k]);
    }
    assert forall|k: int| 0 < k < pre.len() implies (#[trigger] pre[k]).0 != pre[k - 1].0 by {
        assert(pre[k] == clusters[k]);
        assert(pre[k - 1] == clusters[k - 1]);
    }
}

/// Rows listed in face order give clusters in strictly increasing face order, so no
/// face has two clusters.
pub proof fn lemma_sorted_rows_give_distinct_faces(rows: Seq<(u128, u128)>, clusters: Seq<(u128, Seq<u128>)>)
    requires
        faces_sorted(rows),
        expand(clusters) == rows,
        is_split_at_face_changes(clusters),
    ensures
        forall|a: int, b: int| 0 <= a < b < clusters.len() ==> clusters[a].0 < clusters[b].0,
    decreases clusters.len(),
{
    if clusters.len() > 1 {
        let pre = clusters.drop_last();
        let pre_rows = expand(pre);
        lemma_split_prefix(clusters);
        assert(rows =~= pre_rows + cluster_rows(clusters.last()));
        assert(faces_sorted(pre_rows)) by {
            assert forall|i: int, j: int| 0 <= i <= j < pre_rows.len() implies pre_rows[i].0
                <= pre_rows[j].0 by {
                assert(pre_rows[i] == rows[i]);
                assert(pre_rows[j] == rows[j]);
            }
        }
        lemma_sorted_rows_give_distinct_faces(pre_rows, pre);
        lemma_expand_last(pre);
        lemma_expand_last(clusters);
        // the last face of the prefix comes before the last face overall
        assert(pre_rows.last() == rows[pre_rows.len() - 1]);
        assert(rows.last().0 == clusters.last().0);
        assert(pre.last().0 <= clusters.last().0);
        assert(clusters[clusters.len() - 1].0 != clusters[clusters.len() - 2].0);
        assert forall|a: int, b: int| 0 <= a < b < clusters.len() implies clusters[a].0
            < clusters[b].0 by {
            if b < clusters.len() - 1 {
                assert(clusters[a] == pre[a]);
                assert(clusters[b] == pre[b]);
            } else if a < clusters.len() - 2 {
                assert(clusters[a] == pre[a]);
                assert(pre[a].0 < pre[pre.len() - 1].0);
            }
        }
    }
}

/// The clusters hold every row exactly once and in order: their total size is the
/// number of rows.
pub proof fn lemma_cluster_sizes_sum(clusters: Seq<(u128, Seq<u128>)>)
    ensures
        expand(clusters).len() == total_detections(clusters),
    decreases clusters.len(),
{
    if clusters.len() > 0 {
        lemma_cluster_sizes_sum(clusters.drop_last());
    }
}

/// The number of detections over all clusters.
pub open spec fn total_detections(clusters: Seq<(u128, Seq<u128>)>) -> nat
    decreases clusters.len(),
{
    if clusters.len() == 0 {
        0
    } else {
        total_detections(clusters.drop_last()) + clusters.last().1.len()
    }
}

/// The cluster ids that some detection carries.
pub open spec fn assigned_ids(cluster_ids: Seq<Option<u32>>) -> Set<u32> {
    Set::new(|id: u32| cluster_ids.contains(Some(id)))
}

/// The distinct cluster ids that the detections carry, each once, in order of first use.
pub fn unique_cluster_ids(cluster_ids: &[Option<u32>]) -> (unique: Vec<u32>)
    ensures
        unique@.no_duplicates(),
        forall|id: u32| unique@.contains(id) <==> cluster_ids@.contains(Some(id)),
{
    let mut unique: Vec<u32> = Vec::new();
    let mut i: usize = 0;
    while i < cluster_ids.len()
        invariant
            i <= cluster_ids@.len(),
            unique@.no_duplicates(),
            forall|id: u32| unique@.contains(id) <==> cluster_ids@.take(i as int).contains(Some(id)),
        decreases cluster_ids@.len() - i,
    {
        let ghost prefix = cluster_ids@.take(i as int);
        let ghost next = cluster_ids@.take(i + 1);
        assert(next =~= prefix.push(cluster_ids@[i as int]));
        if let Some(id) = cluster_ids[i] {
            let mut found = false;
            let mut j: usize = 0;
            while j < unique.len()
                invariant
                    j <= unique@.len(),
                    found <==> exists|k: int| 0 <= k < j && unique@[k] == id,
                decreases unique@.len() - j,
            {
                if unique[j] == id {
                    found = true;
                }
                j = j + 1;
            }
            let ghost old_unique = unique@;
            if !found {
                unique.push(id);
                proof {
                    assert(!old_unique.contains(id));
                    assert forall|a: int, b: int| 0 <= a < b < unique@.len() implies unique@[a]
                        != unique@[b] by {
                        assert(unique@[a] == old_unique[a] || a == old_unique.len());
                        if b == old_unique.len() {
                            assert(unique@[a] == old_unique[a]);
                        } else {
                            assert(unique@[b] == old_unique[b]);
                            assert(unique@[a] == old_unique[a]);
                        }
                    }
                }
            }
            proof {
                assert forall|x: u32| unique@.contains(x) <==> next.contains(Some(x)) by {
                    if unique@.contains(x) && x != id {
                        let k = choose|k: int| 0 <= k < unique@.len() && unique@[k] == x;
                        assert(k < old_unique.len());
                        assert(old_unique[k] == x);
                        assert(old_unique.contains(x));
                        assert(prefix.contains(Some(x)));
                        let m = choose|m: int| 0 <= m < prefix.len() && prefix[m] == Some(x);
                        assert(next[m] == prefix[m]);
                    }
                    if next.contains(Some(x)) && x != id {
                        let m = choose|m: int| 0 <= m < next.len() && next[m] == Some(x);
                        assert(next[i as int] == Some(id));
                        assert(m < prefix.len());
                        assert(prefix[m] == Some(x));
                        assert(prefix.contains(Some(x)));
                        assert(old_unique.contains(x));
                        let k = choose|k: int| 0 <= k < old_unique.len() && old_unique[k] == x;
                        assert(unique@[k] == old_unique[k]);
                        assert(unique@[k] == x);
                    }
                    if x == id {
                        assert(next[i as int] == Some(id));
                        if found {
                            let k = choose|k: int| 0 <= k < old_unique.len() && old_unique[k] == id;
                            assert(unique@[k] == old_unique[k]);
                            assert(unique@[k] == id);
                        } else {
                            assert(unique@[unique@.len() - 1] == id);
                        }
                    }
                }
            }
        } else {
            proof {
                assert forall|x: u32| next.contains(Some(x)) implies prefix.contains(Some(x)) by {
                    let m = choose|m: int| 0 <= m < next.len() && next[m] == Some(x);
                    assert(m != i);
                    assert(prefix[m] == Some(x));
                }
                assert forall|x: u32| prefix.contains(Some(x)) implies next.contains(Some(x)) by {
                    let m = choose|m: int| 0 <= m < prefix.len() && prefix[m] == Some(x);
                    assert(next[m] == Some(x));
                }
            }
        }
        i = i + 1;
    }
    assert(cluster_ids@.take(i as int) =~= cluster_ids@);
    unique
}

/// The face key of each detection: the key given to its cluster id, none for noise.
/// `keys[k]` is the key of `unique[k]`.
pub fn cluster_key_assignments(
    cluster_ids: &[Option<u32>],
    unique: &[u32],
    keys: &[u128],
) -> (assigned: Vec<Option<u128>>)
    requires
        unique@.len() == keys@.len(),
        forall|id: u32| cluster_ids@.contains(Some(id)) ==> unique@.contains(id),
    ensures
        assigned@.len() == cluster_ids@.len(),
        forall|i: int|
            0 <= i < cluster_ids@.len() ==> match cluster_ids@[i] {
                None => #[trigger] assigned@[i] is None,
                Some(id) => exists|k: int|
                    0 <= k < unique@.len() && unique@[k] == id && assigned@[i] == Some(keys@[k]),
            },
{
    let mut assigned: Vec<Option<u128>> = Vec::new();
    let mut i: usize = 0;
    while i < cluster_ids.len()
        invariant
            i <= cluster_ids@.len(),
            unique@.len() == keys@.len(),
            forall|id: u32| cluster_ids@.contains(Some(id)) ==> unique@.contains(id),
            assigned@.len() == i,
            forall|m: int|
                0 <= m < i ==> match cluster_ids@[m] {
                    None => #[trigger] assigned@[m] is None,
                    Some(id) => exists|k: int|
                        0 <= k < unique@.len() && unique@[k] == id && assigned@[m] == Some(keys@[k]),
                },
        decreases cluster_ids@.len() - i,
    {
        match cluster_ids[i] {
            None => {
                assigned.push(None);
            },
            Some(id) => {
                assert(cluster_ids@[i as int] == Some(id));
                assert(cluster_ids@.contains(Some(id)));
                assert(unique@.contains(id));
                proof {
                    let w = choose|w: int| 0 <= w < unique@.len() && unique@[w] == id;
                    assert(unique@.len() > 0);
                }
                let mut k: usize = 0;
                while unique[k] != id
                    invariant
                        k < unique@.len(),
                        unique@.contains(id),
                        forall|m: int| 0 <= m < k ==> unique@[m] != id,
                    decreases unique@.len() - k,
                {
                    k = k + 1;
                    if k >= unique.len() {
                        proof {
                            let w = choose|w: int| 0 <= w < unique@.len() && unique@[w] == id;
                            assert(false);
                        }
                    }
                }
                assigned.push(Some(keys[k]));
                assert(assigned@[i as int] == Some(keys@[k as int]));
            },
        }
        i = i + 1;
    }
    assigned
}

/// Detections with the same cluster id get the same key, and with distinct keys per
/// cluster, detections of different clusters get different keys.
pub proof fn lemma_same_cluster_same_key(
    unique: Seq<u32>,
    keys: Seq<u128>,
    a: int,
    b: int,
    id_a: u32,
    id_b: u32,
)
    requires
        unique.no_duplicates(),
        keys.no_duplicates(),
        unique.len() == keys.len(),
        0 <= a < unique.len(),
        0 <= b < unique.len(),
        unique[a] == id_a,
        unique[b] == id_b,
    ensures
        (id_a == id_b) <==> (keys[a] == keys[b]),
{
}

/// The items listed for one face, in row order.
pub open spec fn detections_of<D>(rows: Seq<(u32, D)>, face: u32) -> Seq<D>
    decreases rows.len(),
{
    if rows.len() == 0 {
        Seq::empty()
    } else {
        let before = detections_of(rows.drop_last(), face);
        if rows.last().0 == face {
            before.push(rows.last().1)
        } else {
            before
        }
    }
}

/// Groups rows of (face id, item) by face id: each face that some row names maps to
/// its items in row order.
pub fn group_by_face_id<D>(rows: Vec<(u32, D)>) -> (grouped: HashMap<u32, Vec<D>>)
    ensures
        forall|face: u32| #[trigger] grouped@.contains_key(face) <==> detections_of(rows@, face).len() > 0,
        forall|face: u32| grouped@.contains_key(face) ==> (#[trigger] grouped@[face])@ == detections_of(rows@, face),
{
    broadcast use vstd::std_specs::hash::group_hash_axioms;

    let ghost all = rows@;
    let mut grouped: HashMap<u32, Vec<D>> = HashMap::new();
    for row in it: rows.into_iter()
        invariant
            it.seq() == all,
            forall|face: u32|
                #[trigger] grouped@.contains_key(face) <==> detections_of(all.take(it.index() as int), face).len() > 0,
            forall|face: u32|
                grouped@.contains_key(face) ==> (#[trigger] grouped@[face])@ == detections_of(
                    all.take(it.index() as int),
                    face,
                ),
    {
        let ghost i = it.index();
        let (face_id, item) = row;
        assert(all.take(i + 1).drop_last() =~= all.take(i as int));
        assert(all.take(i + 1).last() == (face_id, item));
        let mut items = match grouped.remove(&face_id) {
            Some(items) => items,
            None => Vec::new(),
        };
        items.push(item);
        grouped.insert(face_id, items);
    }
    assert(all.take(all.len() as int) =~= all);
    grouped
}

} // verus!
