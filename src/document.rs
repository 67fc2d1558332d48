use vstd::prelude::*;

use std::collections::HashMap;

use crate::error::{ErrorView, HelixError, HelixResult};
use crate::vector::empty_id_message;

verus! {

/// A document. Timestamps are milliseconds since the Unix epoch; each
/// component of the embedding is the bit pattern of an `f32`.
pub struct DocumentRecord {
    pub id: String,
    pub body: serde_json::Value,
    pub metadata: HashMap<String, serde_json::Value>,
    pub embedding: Option<Vec<u32>>,
    pub created_at: i64,
    pub updated_at: i64,
}

impl DocumentRecord {
    /// A document with no metadata and no embedding, created and updated at `now`.
    pub fn new(id: String, body: serde_json::Value, now: i64) -> (r: DocumentRecord)
        ensures
            r.id@ == id@,
            r.body == body,
            r.metadata@ == Map::<String, serde_json::Value>::empty(),
            r.embedding is None,
            r.created_at == now,
            r.updated_at == now,
    {
        DocumentRecord {
            id,
            body,
            metadata: HashMap::new(),
            embedding: None,
            created_at: now,
            updated_at: now,
        }
    }

    /// Accepts the document when its id is non-empty.
    pub fn validate(&self) -> (r: HelixResult<()>)
        ensures
            r is Ok <==> self.id@.len() > 0,
            r matches Err(e) ==> e@ == ErrorView::Storage(empty_id_message()),
    {
        if self.id.as_str().unicode_len() == 0 {
            Err(HelixError::Storage(String::from_str("id: must not be empty")))
        } else {
            Ok(())
        }
    }
}

/// The key of a document attached to a node: the node id, a colon, and
/// the document id.
pub open spec fn attached_key(node_id: Seq<char>, doc_id: Seq<char>) -> Seq<char> {
    node_id + ":"@ + doc_id
}

/// The key under which a document attached to `node_id` is stored.
pub fn document_key(node_id: &str, doc_id: &str) -> (r: String)
    ensures
        r@ == attached_key(node_id@, doc_id@),
{
    let k = String::from_str(node_id);
    let k = k.concat(":");
    k.concat(doc_id)
}

/// Checks a document that is to be attached to `node_id` and gives the
/// key to store it under.
pub fn attach_key(node_id: &str, document: &DocumentRecord) -> (r: HelixResult<String>)
    ensures
        r is Ok <==> document.id@.len() > 0,
        r matches Ok(k) ==> k@ == attached_key(node_id@, document.id@),
        r matches Err(e) ==> e@ == ErrorView::Storage(empty_id_message()),
{
    document.validate()?;
    Ok(document_key(node_id, document.id.as_str()))
}

} // verus!
