use helix_db::embed::embed_text;
use helix_db::query::{parse_embed, plan_query, HelixQlRequest, HelixQuery, HelixQueryLiteral, QueryPlan};
use helix_db::rank::select_top_k;
use helix_db::vector::{rank_records, SimilarityMetric, VectorRecord};
use helix_db::HelixError;
use sha3::Digest;

fn query_error(r: Result<QueryPlan, HelixError>) -> String {
    match r {
        Err(HelixError::Query(m)) => m,
        Err(e) => panic!("unexpected error {:?}", e),
        Ok(_) => panic!("expected a query error"),
    }
}

fn returned(r: Result<QueryPlan, HelixError>) -> String {
    match r {
        Ok(QueryPlan::Return(s)) => s,
        Ok(QueryPlan::Search(_)) => panic!("expected a return payload"),
        Err(e) => panic!("unexpected error {:?}", e),
    }
}

#[test]
fn return_literal_payload() {
    assert_eq!(returned(plan_query("RETURN 42")), "42");
}

#[test]
fn return_trims_and_stops_pipeline() {
    assert_eq!(returned(plan_query("  RETURN   hi there  ; FOO bar")), "hi there");
}

#[test]
fn unsupported_statement_is_quoted() {
    let m = query_error(plan_query("FOO bar"));
    assert_eq!(m, "Unsupported HelixQL statement: FOO bar");
    assert!(m.contains("FOO bar"));
}

#[test]
fn search_without_embed_names_prerequisite() {
    let m = query_error(plan_query("docs <- VectorSearch"));
    assert_eq!(m, "Embed step required before VectorSearch");
    assert!(m.contains("Embed"));
}

#[test]
fn empty_query_has_no_statement() {
    assert_eq!(query_error(plan_query("")), "No executable statements in query");
    assert_eq!(query_error(plan_query(" ; ;  ")), "No executable statements in query");
}

#[test]
fn embed_alone_has_no_statement() {
    assert_eq!(
        query_error(plan_query("v <- Embed(\"x\", \"m\")")),
        "No executable statements in query"
    );
}

#[test]
fn empty_statements_are_skipped() {
    assert_eq!(returned(plan_query(" ; ;RETURN x")), "x");
}

#[test]
fn embed_then_search_uses_embedding() {
    match plan_query("v <- Embed(\"x\",\"m\"); docs <- VectorSearch") {
        Ok(QueryPlan::Search(v)) => assert_eq!(v, embed_text("x", "m")),
        _ => panic!("expected a search"),
    }
}

#[test]
fn later_embed_overwrites_current_vector() {
    match plan_query("a <- Embed(x, m); b <- Embed(y, m); c <- VectorSearch") {
        Ok(QueryPlan::Search(v)) => assert_eq!(v, embed_text("y", "m")),
        _ => panic!("expected a search"),
    }
}

fn cosine(a: &[f32], b: &[f32]) -> f32 {
    let dot: f64 = a.iter().zip(b).map(|(x, y)| *x as f64 * *y as f64).sum();
    let na: f64 = a.iter().map(|x| *x as f64 * *x as f64).sum::<f64>().sqrt();
    let nb: f64 = b.iter().map(|x| *x as f64 * *x as f64).sum::<f64>().sqrt();
    if na * nb == 0.0 {
        0.0
    } else {
        (dot / (na * nb)) as f32
    }
}

#[test]
fn embed_search_returns_nearest_first() {
    let plan = plan_query("v <- Embed(\"x\",\"m\"); docs <- VectorSearch");
    let query = match plan {
        Ok(QueryPlan::Search(v)) => v,
        _ => panic!("expected a search"),
    };
    let q: Vec<f32> = query.iter().map(|b| f32::from_bits(*b)).collect();
    let stored = vec![
        ("far", embed_text("something else", "m")),
        ("near", query.clone()),
        ("other", embed_text("x", "another model")),
    ];
    let mut records = Vec::new();
    let mut scores = Vec::new();
    for (id, values) in stored {
        let v: Vec<f32> = values.iter().map(|b| f32::from_bits(*b)).collect();
        scores.push(cosine(&q, &v).to_bits());
        records.push(VectorRecord::new(id.to_string(), values, serde_json::Value::Null));
    }
    let request = HelixQlRequest::new("q".to_string(), serde_json::Value::Null);
    assert_eq!(request.metric, SimilarityMetric::Cosine);
    assert_eq!(request.top_k, 10);
    let found = rank_records(records, &scores, request.top_k);
    assert_eq!(found.len(), 3);
    assert_eq!(found[0].id, "near");
    assert_eq!(select_top_k(&scores, 1)[0], 1);
}

#[test]
fn embed_is_deterministic() {
    let a = embed_text("hello", "modelA");
    let b = embed_text("hello", "modelA");
    assert_eq!(a, b);
    assert_eq!(a.len(), 8);
}

#[test]
fn embed_depends_on_model() {
    assert_ne!(embed_text("hello", "modelA"), embed_text("hello", "modelB"));
    assert_ne!(embed_text("hello", "modelA"), embed_text("hellp", "modelA"));
}

#[test]
fn embed_is_digest_of_model_then_text() {
    let digest = sha3::Sha3_256::digest(b"modelAhello");
    let expected: Vec<u32> = digest
        .chunks(4)
        .map(|c| u32::from_be_bytes([c[0], c[1], c[2], c[3]]))
        .collect();
    assert_eq!(embed_text("hello", "modelA"), expected);
}

#[test]
fn parse_embed_strips_quotes_and_space() {
    let (t, m) = parse_embed("vec <- Embed( 'hello' , \"modelA\" )").unwrap();
    assert_eq!(t, "hello");
    assert_eq!(m, "modelA");
}

#[test]
fn parse_embed_errors() {
    let msg = |s: &str| match parse_embed(s) {
        Err(HelixError::Query(m)) => m,
        other => panic!("unexpected {:?}", other.map(|_| ())),
    };
    assert_eq!(msg("v <- Embed x"), "Embed statement missing '('");
    assert_eq!(msg("v <- Embed(a, b"), "Embed statement missing ')'");
    assert_eq!(msg("v <- Embed)a, b("), "Embed statement missing ')'");
    assert_eq!(msg("v <- Embed(a)"), "Embed expects two arguments");
    assert_eq!(msg("v <- Embed(a, b, c)"), "Embed expects two arguments");
}

#[test]
fn malformed_embed_fails_query() {
    assert_eq!(query_error(plan_query("v <- Embed(a)")), "Embed expects two arguments");
}

#[test]
fn query_from_literal() {
    let q = HelixQuery::from(HelixQueryLiteral { name: "find", source: "RETURN 1" });
    assert_eq!(q.name, "find");
    assert_eq!(q.source, "RETURN 1");
}
