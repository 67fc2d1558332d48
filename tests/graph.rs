use helix_db::document::{attach_key, document_key, DocumentRecord};
use helix_db::graph::{edge_targets, present_nodes, EdgeRecord, NodeRecord};
use helix_db::HelixError;

fn node(id: &str) -> NodeRecord {
    NodeRecord::new(id.to_string(), vec!["person".to_string()], serde_json::Value::Null, 7)
}

fn edge(id: &str, source: &str, target: &str) -> EdgeRecord {
    EdgeRecord::new(
        id.to_string(),
        source.to_string(),
        target.to_string(),
        "knows".to_string(),
        1.5f32.to_bits(),
        serde_json::Value::Null,
        7,
    )
}

fn storage_message(r: Result<(), HelixError>) -> String {
    match r {
        Err(HelixError::Storage(m)) => m,
        _ => panic!("expected a storage error"),
    }
}

#[test]
fn node_validation() {
    assert!(node("a").validate().is_ok());
    assert_eq!(storage_message(node("").validate()), "id: must not be empty");
}

#[test]
fn edge_validation_names_first_empty_field() {
    assert!(edge("e", "a", "b").validate().is_ok());
    assert_eq!(storage_message(edge("", "", "").validate()), "id: must not be empty");
    assert_eq!(storage_message(edge("e", "", "b").validate()), "source: must not be empty");
    assert_eq!(storage_message(edge("e", "a", "").validate()), "target: must not be empty");
}

#[test]
fn targets_follow_source_in_scan_order() {
    let edges = vec![edge("1", "a", "b"), edge("2", "c", "d"), edge("3", "a", "e"), edge("4", "a", "b")];
    assert_eq!(edge_targets(&edges, "a"), vec!["b", "e", "b"]);
    assert!(edge_targets(&edges, "z").is_empty());
}

#[test]
fn dangling_edge_target_is_skipped() {
    let edges = vec![edge("1", "a", "b"), edge("2", "a", "missing")];
    let targets = edge_targets(&edges, "a");
    let found: Vec<Option<NodeRecord>> = targets
        .iter()
        .map(|t| if t == "b" { Some(node("b")) } else { None })
        .collect();
    let neighbors = present_nodes(found);
    assert_eq!(neighbors.len(), 1);
    assert_eq!(neighbors[0].id, "b");
    assert_eq!(neighbors[0].labels, vec!["person".to_string()]);
}

#[test]
fn attached_document_key() {
    assert_eq!(document_key("n1", "d1"), "n1:d1");
    let doc = DocumentRecord::new("d1".to_string(), serde_json::Value::Null, 5);
    assert_eq!(attach_key("n1", &doc).unwrap(), "n1:d1");
    assert_eq!(doc.created_at, 5);
    assert!(doc.embedding.is_none());
    assert!(doc.metadata.is_empty());
}

#[test]
fn attach_rejects_empty_document_id() {
    let doc = DocumentRecord::new(String::new(), serde_json::Value::Null, 5);
    match attach_key("n1", &doc) {
        Err(HelixError::Storage(m)) => assert_eq!(m, "id: must not be empty"),
        _ => panic!("expected a storage error"),
    }
}

#[test]
fn error_status_codes() {
    assert_eq!(HelixError::Configuration("x".into()).status_code(), 400);
    assert_eq!(HelixError::Authentication.status_code(), 401);
    assert_eq!(HelixError::Authorization.status_code(), 403);
    assert_eq!(HelixError::Storage("x".into()).status_code(), 500);
    assert_eq!(HelixError::Query("x".into()).status_code(), 400);
    assert_eq!(HelixError::Plugin("x".into()).status_code(), 502);
    assert_eq!(HelixError::Telemetry("x".into()).status_code(), 500);
    assert_eq!(HelixError::Internal("x".into()).status_code(), 500);
}
