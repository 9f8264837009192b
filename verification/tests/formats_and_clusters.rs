use photos::face_clusters::group_by_face_id;
use photos::face_clusters::{cluster_key_assignments, unique_cluster_ids};
use photos::clustering::{
    clustering_result_from_labels, effective_min_samples, face_id_updates, trivial_clustering,
    ClusteringConfig,
};
use photos::face_clusters::group_face_clusters;
use photos::image_format::{format_to_i64, i64_to_format, ImageFormat};

const ALL_FORMATS: [ImageFormat; 15] = [
    ImageFormat::Png,
    ImageFormat::Jpeg,
    ImageFormat::Gif,
    ImageFormat::WebP,
    ImageFormat::Pnm,
    ImageFormat::Tiff,
    ImageFormat::Tga,
    ImageFormat::Dds,
    ImageFormat::Bmp,
    ImageFormat::Ico,
    ImageFormat::Hdr,
    ImageFormat::OpenExr,
    ImageFormat::Farbfeld,
    ImageFormat::Avif,
    ImageFormat::Qoi,
];

#[test]
fn format_codes() {
    assert_eq!(format_to_i64(ImageFormat::Png), 0);
    assert_eq!(format_to_i64(ImageFormat::Jpeg), 1);
    assert_eq!(format_to_i64(ImageFormat::Qoi), 14);
    assert_eq!(i64_to_format(3), ImageFormat::WebP);
    assert_eq!(i64_to_format(11), ImageFormat::OpenExr);
}

#[test]
fn format_codes_round_trip() {
    for (i, f) in ALL_FORMATS.iter().enumerate() {
        assert_eq!(format_to_i64(*f), i as i64);
        assert_eq!(i64_to_format(format_to_i64(*f)), *f);
        assert_eq!(format_to_i64(i64_to_format(i as i64)), i as i64);
    }
}

#[test]
fn group_rows_into_clusters() {
    let rows = [(7u128, 1u128), (7, 2), (9, 3), (7, 4)];
    let clusters = group_face_clusters(&rows);
    assert_eq!(clusters, vec![(7, vec![1, 2]), (9, vec![3]), (7, vec![4])]);
}

#[test]
fn group_sorted_rows_gives_one_cluster_per_face() {
    let rows = [(1u128, 10u128), (1, 11), (2, 12), (3, 13), (3, 14), (3, 15)];
    let clusters = group_face_clusters(&rows);
    let faces: Vec<u128> = clusters.iter().map(|c| c.0).collect();
    assert_eq!(faces, vec![1, 2, 3]);
    let total: usize = clusters.iter().map(|c| c.1.len()).sum();
    assert_eq!(total, rows.len());
    let flattened: Vec<(u128, u128)> =
        clusters.iter().flat_map(|(f, ds)| ds.iter().map(move |d| (*f, *d))).collect();
    assert_eq!(flattened, rows.to_vec());
}

#[test]
fn group_no_rows() {
    assert!(group_face_clusters(&[]).is_empty());
}

#[test]
fn test_cluster_empty() {
    let config = ClusteringConfig::default();
    let result = trivial_clustering(0, &config).unwrap();
    assert_eq!(result.labels.len(), 0);
    assert_eq!(result.n_clusters, 0);
}

#[test]
fn test_cluster_single_embedding() {
    let config = ClusteringConfig { min_cluster_size: 2, min_samples: None };
    let result = trivial_clustering(1, &config).unwrap();
    assert_eq!(result.labels[0], -1);
    assert_eq!(result.n_clusters, 0);
}

#[test]
fn clustering_needs_a_run_from_min_cluster_size_on() {
    let config = ClusteringConfig { min_cluster_size: 3, min_samples: Some(5) };
    assert_eq!(trivial_clustering(2, &config).unwrap().labels, vec![-1, -1]);
    assert!(trivial_clustering(3, &config).is_none());
    assert_eq!(effective_min_samples(&config), 5);
    assert_eq!(effective_min_samples(&ClusteringConfig::default()), 2);
}

#[test]
fn count_distinct_cluster_labels() {
    let result = clustering_result_from_labels(vec![0, -1, 2, 0, 2, -1, 5]);
    assert_eq!(result.n_clusters, 3);
    assert_eq!(result.labels, vec![0, -1, 2, 0, 2, -1, 5]);
    assert_eq!(clustering_result_from_labels(vec![-1, -1]).n_clusters, 0);
    assert_eq!(clustering_result_from_labels(vec![]).n_clusters, 0);
}

#[test]
fn face_ids_from_labels() {
    let updates = face_id_updates(&[11, 12, 13], &[4, -1, 0, 9]);
    assert_eq!(updates, vec![(11, Some(4)), (12, None), (13, Some(0))]);
    assert!(face_id_updates(&[], &[1]).is_empty());
}

#[test]
fn unique_ids_and_keys_of_clusters() {
    let ids = [Some(3), None, Some(1), Some(3), None, Some(1), Some(8)];
    let unique = unique_cluster_ids(&ids);
    assert_eq!(unique, vec![3, 1, 8]);
    let keys = [300u128, 100, 800];
    let assigned = cluster_key_assignments(&ids, &unique, &keys);
    assert_eq!(
        assigned,
        vec![Some(300), None, Some(100), Some(300), None, Some(100), Some(800)]
    );
    assert!(unique_cluster_ids(&[None, None]).is_empty());
}

#[test]
fn detections_grouped_by_face_id() {
    let rows = vec![(2u32, 'a'), (1, 'b'), (2, 'c'), (3, 'd'), (2, 'e')];
    let grouped = group_by_face_id(rows);
    assert_eq!(grouped.len(), 3);
    assert_eq!(grouped[&2], vec!['a', 'c', 'e']);
    assert_eq!(grouped[&1], vec!['b']);
    assert_eq!(grouped[&3], vec!['d']);
    assert!(group_by_face_id(Vec::<(u32, u8)>::new()).is_empty());
}

#[test]
fn only_full_size_embeddings_are_kept() {
    let rows = vec![
        (5i64, vec![0u8; 2048]),
        (6, vec![1u8; 2047]),
        (7, vec![2u8; 2048]),
        (1 << 32 | 9, vec![3u8; 2048]),
        (8, vec![]),
    ];
    let kept = photos::clustering::rows_with_full_embeddings(rows);
    let ids: Vec<u32> = kept.iter().map(|(id, _)| *id).collect();
    assert_eq!(ids, vec![5, 7, 9]);
    assert!(kept.iter().all(|(_, b)| b.len() == photos::clustering::EMBEDDING_BYTES));
}
