use helix_db::rank::select_top_k;
use helix_db::vector::{check_query, default_k, default_metric, search_ranked, SimilarityMetric, VectorRecord};
use helix_db::HelixError;

fn bits(v: &[f32]) -> Vec<u32> {
    v.iter().map(|x| x.to_bits()).collect()
}

fn record(id: &str) -> VectorRecord {
    VectorRecord::new(id.to_string(), vec![1.0f32.to_bits()], serde_json::Value::Null)
}

#[test]
fn keeps_highest_scores_in_order() {
    assert_eq!(select_top_k(&bits(&[0.1, 0.9, 0.5, 0.7]), 2), vec![1, 3]);
}

#[test]
fn ties_keep_scan_order() {
    assert_eq!(select_top_k(&bits(&[0.5, 0.5, 0.5]), 2), vec![0, 1]);
    assert_eq!(select_top_k(&bits(&[0.2, 0.5, 0.5, 0.9]), 3), vec![3, 1, 2]);
}

#[test]
fn fewer_than_k_returns_all_sorted() {
    assert_eq!(select_top_k(&bits(&[0.3, 0.1, 0.2]), 10), vec![0, 2, 1]);
}

#[test]
fn zero_k_returns_nothing() {
    assert!(select_top_k(&bits(&[0.3, 0.1]), 0).is_empty());
    assert!(select_top_k(&Vec::new(), 4).is_empty());
}

#[test]
fn negative_scores_order() {
    assert_eq!(select_top_k(&bits(&[-1.0, -0.5, 2.0, 0.0]), 4), vec![2, 3, 1, 0]);
}

#[test]
fn nan_ranks_last() {
    assert_eq!(select_top_k(&bits(&[f32::NAN, -f32::INFINITY, 0.0, -f32::NAN]), 4), vec![2, 1, 0, 3]);
    assert_eq!(select_top_k(&bits(&[f32::NAN, 1.0]), 1), vec![1]);
}

#[test]
fn equal_scores_share_rank_with_total_order_elsewhere() {
    let scores = [f32::INFINITY, -f32::INFINITY, f32::MAX, -f32::MAX, f32::MIN_POSITIVE, -f32::MIN_POSITIVE, 1e-45, -1e-45];
    assert_eq!(select_top_k(&bits(&scores), 8), vec![0, 2, 4, 6, 7, 5, 3, 1]);
}

#[test]
fn many_more_than_k() {
    let scores: Vec<f32> = (0..1000).map(|i| ((i * 7919) % 1000) as f32 / 10.0 - 50.0).collect();
    let got = select_top_k(&bits(&scores), 5);
    let mut idx: Vec<usize> = (0..scores.len()).collect();
    idx.sort_by(|a, b| scores[*b].total_cmp(&scores[*a]).then(a.cmp(b)));
    assert_eq!(got, idx[..5].to_vec());
}

#[test]
fn search_rejects_empty_query() {
    match search_ranked(&Vec::new(), vec![record("a")], &bits(&[1.0]), 3) {
        Err(HelixError::Query(m)) => assert_eq!(m, "query vector must not be empty"),
        _ => panic!("expected a query error"),
    }
    assert!(check_query(&bits(&[1.0])).is_ok());
}

#[test]
fn search_returns_best_records() {
    let recs = vec![record("a"), record("b"), record("c")];
    let found = search_ranked(&bits(&[1.0]), recs, &bits(&[0.2, 0.8, 0.5]), 2).unwrap();
    let ids: Vec<&str> = found.iter().map(|r| r.id.as_str()).collect();
    assert_eq!(ids, vec!["b", "c"]);
}

#[test]
fn zero_score_ranks_between_signs() {
    assert_eq!(select_top_k(&bits(&[0.0, 0.5, -0.5]), 3), vec![1, 0, 2]);
}

#[test]
fn signed_zeros_tie_in_scan_order() {
    assert_eq!(select_top_k(&bits(&[-0.0, 0.0]), 2), vec![0, 1]);
    assert_eq!(select_top_k(&bits(&[0.0, -0.0]), 2), vec![0, 1]);
    assert_eq!(select_top_k(&bits(&[-0.0, 0.0]), 1), vec![0]);
    assert_eq!(select_top_k(&bits(&[-1e-30, -0.0, 1e-30, 0.0]), 4), vec![2, 1, 3, 0]);
}

#[test]
fn vector_record_validation() {
    match record("").validate() {
        Err(HelixError::Storage(m)) => assert_eq!(m, "id: must not be empty"),
        _ => panic!("expected a storage error"),
    }
    assert!(record("v1").validate().is_ok());
}

#[test]
fn metric_defaults_and_names() {
    assert_eq!(default_metric(), SimilarityMetric::Cosine);
    assert_eq!(default_k(), 10);
    assert_eq!(SimilarityMetric::Cosine.name(), "Cosine");
    assert_eq!(SimilarityMetric::L2.name(), "L2");
    assert_eq!(SimilarityMetric::Dot.name(), "Dot");
}
