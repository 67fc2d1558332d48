use vstd::prelude::*;

use crate::error::{ErrorView, HelixError, HelixResult};
use crate::vector::empty_id_message;

verus! {

/// A node of the graph. `created_at` is in milliseconds since the Unix epoch.
pub struct NodeRecord {
    pub id: String,
    pub labels: Vec<String>,
    pub properties: serde_json::Value,
    pub created_at: i64,
}

/// A directed edge. Its id is its key, so parallel edges between the same
/// nodes may coexist. `weight` is the bit pattern of an `f32`.
pub struct EdgeRecord {
    pub id: String,
    pub source: String,
    pub target: String,
    pub label: String,
    pub weight: u32,
    pub properties: serde_json::Value,
    pub created_at: i64,
}

pub open spec fn empty_source_message() -> Seq<char> {
    "source: must not be empty"@
}

pub open spec fn empty_target_message() -> Seq<char> {
    "target: must not be empty"@
}

impl NodeRecord {
    pub fn new(id: String, labels: Vec<String>, properties: serde_json::Value, created_at: i64) -> (r:
        NodeRecord)
        ensures
            r.id@ == id@,
            r.labels@ == labels@,
            r.properties == properties,
            r.created_at == created_at,
    {
        NodeRecord { id, labels, properties, created_at }
    }

    /// Accepts the node when its id is non-empty.
    pub fn validate(&self) -> (r: HelixResult<()>)
        ensures
            r is Ok <==> self.id@.len() > 0,
            r matches Err(e) ==> e@ == ErrorView::Storage(empty_id_message()),
    {
        if self.id.as_str().unicode_len() == 0 {
            Err(HelixError::Storage(String::from_str("id: must not be empty")))
        } else {
            Ok(())
        }
    }
}

impl EdgeRecord {
    pub fn new(
        id: String,
        source: String,
        target: String,
        label: String,
        weight: u32,
        properties: serde_json::Value,
        created_at: i64,
    ) -> (r: EdgeRecord)
        ensures
            r.id@ == id@,
            r.source@ == source@,
            r.target@ == target@,
            r.label@ == label@,
            r.weight == weight,
            r.properties == properties,
            r.created_at == created_at,
    {
        EdgeRecord { id, source, target, label, weight, properties, created_at }
    }

    /// Accepts the edge when its id, source and target are all non-empty;
    /// the error names the first of them that is empty.
    pub fn validate(&self) -> (r: HelixResult<()>)
        ensures
            r is Ok <==> (self.id@.len() > 0 && self.source@.len() > 0 && self.target@.len() > 0),
            r matches Err(e) ==> e@ == ErrorView::Storage(
                if self.id@.len() == 0 {
                    empty_id_message()
                } else if self.source@.len() == 0 {
                    empty_source_message()
                } else {
                    empty_target_message()
                },
            ),
    {
        if self.id.as_str().unicode_len() == 0 {
            Err(HelixError::Storage(String::from_str("id: must not be empty")))
        } else if self.source.as_str().unicode_len() == 0 {
            Err(HelixError::Storage(String::from_str("source: must not be empty")))
        } else if self.target.as_str().unicode_len() == 0 {
            Err(HelixError::Storage(String::from_str("target: must not be empty")))
        } else {
            Ok(())
        }
    }
}

/// The targets of the edges that leave `id`, in scan order.
pub open spec fn targets_from(edges: Seq<EdgeRecord>, id: Seq<char>) -> Seq<Seq<char>>
    decreases edges.len(),
{
    if edges.len() == 0 {
        Seq::empty()
    } else {
        let rest = targets_from(edges.drop_last(), id);
        if edges.last().source@ == id {
            rest.push(edges.last().target@)
        } else {
            rest
        }
    }
}

/// The records that were found, in order, skipping the lookups that found
/// nothing.
pub open spec fn present(found: Seq<Option<NodeRecord>>) -> Seq<NodeRecord>
    decreases found.len(),
{
    if found.len() == 0 {
        Seq::empty()
    } else {
        let rest = present(found.drop_last());
        match found.last() {
            Some(n) => rest.push(n),
            None => rest,
        }
    }
}

/// The node stored under `key`, if any.
pub open spec fn lookup(nodes: Map<Seq<char>, NodeRecord>, key: Seq<char>) -> Option<NodeRecord> {
    if nodes.contains_key(key) {
        Some(nodes[key])
    } else {
        None
    }
}

/// The neighbors of `id`: for each edge that leaves it, in scan order, the
/// target's record where one is stored.
pub open spec fn neighbors_of(
    edges: Seq<EdgeRecord>,
    nodes: Map<Seq<char>, NodeRecord>,
    id: Seq<char>,
) -> Seq<NodeRecord> {
    present(targets_from(edges, id).map_values(|t: Seq<char>| lookup(nodes, t)))
}

/// Every node is stored under its own id.
pub open spec fn keyed_by_id(nodes: Map<Seq<char>, NodeRecord>) -> bool {
    forall|k: Seq<char>| #[trigger] nodes.contains_key(k) ==> nodes[k].id@ == k
}

/// The targets of the edges in `edges` whose source is `id`, in order.
pub fn edge_targets(edges: &Vec<EdgeRecord>, id: &str) -> (r: Vec<String>)
    ensures
        r@.map_values(|s: String| s@) == targets_from(edges@, id@),
{
    let key = String::from_str(id);
    let mut r: Vec<String> = Vec::new();
    let mut i: usize = 0;
    while i < edges.len()
        invariant
            i <= edges@.len(),
            key@ == id@,
            r@.map_values(|s: String| s@) == targets_from(edges@.subrange(0, i as int), id@),
        decreases edges@.len() - i,
    {
        let ghost pre = r@;
        assert(edges@.subrange(0, i + 1).drop_last() =~= edges@.subrange(0, i as int));
        if edges[i].source == key {
            r.push(edges[i].target.clone());
            assert(r@.map_values(|s: String| s@) =~= pre.map_values(|s: String| s@).push(
                edges@[i as int].target@,
            ));
        }
        i = i + 1;
    }
    assert(edges@.subrange(0, i as int) =~= edges@);
    r
}

/// The records that lookups found, in order; the lookups that found
/// nothing (edges to missing nodes) are skipped.
pub fn present_nodes(found: Vec<Option<NodeRecord>>) -> (r: Vec<NodeRecord>)
    ensures
        r@ == present(found@),
{
    let ghost orig = found@;
    let n = found.len();
    let mut found = found;
    let mut rev: Vec<Option<NodeRecord>> = Vec::new();
    while found.len() > 0
        invariant
            n == orig.len(),
            found@ == orig.subrange(0, found@.len() as int),
            rev@.len() + found@.len() == n,
            forall|j: int| 0 <= j < rev@.len() ==> rev@[j] == orig[n - 1 - j],
        decreases found@.len(),
    {
        let x = found.pop();
        match x {
            Some(v) => rev.push(v),
            None => {},
        }
    }
    let mut r: Vec<NodeRecord> = Vec::new();
    let mut m: usize = 0;
    while rev.len() > 0
        invariant
            n == orig.len(),
            rev@.len() + m == n,
            forall|j: int| 0 <= j < rev@.len() ==> rev@[j] == orig[n - 1 - j],
            r@ == present(orig.subrange(0, m as int)),
        decreases rev@.len(),
    {
        let x = rev.pop();
        assert(orig.subrange(0, m + 1).drop_last() =~= orig.subrange(0, m as int));
        match x {
            Some(Some(v)) => r.push(v),
            _ => {},
        }
        m = m + 1;
    }
    assert(orig.subrange(0, m as int) =~= orig);
    r
}

proof fn lemma_present_members(found: Seq<Option<NodeRecord>>)
    ensures
        forall|j: int|
            0 <= j < found.len() && (#[trigger] found[j]) is Some ==> present(found).contains(
                found[j]->0,
            ),
        forall|p: int|
            0 <= p < present(found).len() ==> exists|j: int|
                0 <= j < found.len() && found[j] == Some(#[trigger] present(found)[p]),
    decreases found.len(),
{
    if found.len() > 0 {
        let init = found.drop_last();
        lemma_present_members(init);
        let rest = present(init);
        assert forall|j: int| 0 <= j < found.len() && (#[trigger] found[j]) is Some implies present(
            found,
        ).contains(found[j]->0) by {
            if j < found.len() - 1 {
                assert(init[j] == found[j]);
                let w = choose|w: int| 0 <= w < rest.len() && rest[w] == found[j]->0;
                assert(present(found)[w] == found[j]->0);
            } else {
                assert(present(found)[present(found).len() - 1] == found[j]->0);
            }
        }
        assert forall|p: int| 0 <= p < present(found).len() implies exists|j: int|
            0 <= j < found.len() && found[j] == Some(#[trigger] present(found)[p]) by {
            if p < rest.len() {
                assert(present(found)[p] == rest[p]);
                let j = choose|j: int| 0 <= j < init.len() && init[j] == Some(rest[p]);
                assert(found[j] == init[j]);
            } else {
                assert(found[found.len() - 1] == Some(present(found)[p]));
            }
        }
    }
}

proof fn lemma_targets_members(edges: Seq<EdgeRecord>, id: Seq<char>)
    ensures
        forall|e: int|
            0 <= e < edges.len() && (#[trigger] edges[e]).source@ == id ==> targets_from(
                edges,
                id,
            ).contains(edges[e].target@),
    decreases edges.len(),
{
    if edges.len() > 0 {
        let init = edges.drop_last();
        lemma_targets_members(init, id);
        let rest = targets_from(init, id);
        assert forall|e: int| 0 <= e < edges.len() && (#[trigger] edges[e]).source@ == id implies targets_from(
            edges,
            id,
        ).contains(edges[e].target@) by {
            if e < edges.len() - 1 {
                assert(init[e] == edges[e]);
                let w = choose|w: int| 0 <= w < rest.len() && rest[w] == edges[e].target@;
                assert(targets_from(edges, id)[w] == edges[e].target@);
            } else {
                let t = targets_from(edges, id);
                assert(t[t.len() - 1] == edges[e].target@);
            }
        }
    }
}

/// Traversal tolerates dangling edges: for an edge from `a` to `b`, the
/// neighbors of `a` include `b`'s record when it is stored, and hold no
/// record with id `b` when it is not.
pub proof fn lemma_neighbors_dangling(
    edges: Seq<EdgeRecord>,
    nodes: Map<Seq<char>, NodeRecord>,
    a: Seq<char>,
    e: int,
)
    requires
        0 <= e < edges.len(),
        edges[e].source@ == a,
        keyed_by_id(nodes),
    ensures
        nodes.contains_key(edges[e].target@) ==> neighbors_of(edges, nodes, a).contains(
            nodes[edges[e].target@],
        ),
        !nodes.contains_key(edges[e].target@) ==> forall|p: int|
            0 <= p < neighbors_of(edges, nodes, a).len() ==> (#[trigger] neighbors_of(
                edges,
                nodes,
                a,
            )[p]).id@ != edges[e].target@,
{
    let b = edges[e].target@;
    let targets = targets_from(edges, a);
    let found = targets.map_values(|t: Seq<char>| lookup(nodes, t));
    lemma_targets_members(edges, a);
    lemma_present_members(found);
    assert(edges[e].source@ == a);
    assert(targets.contains(b));
    let w = choose|w: int| 0 <= w < targets.len() && targets[w] == b;
    assert(found[w] == lookup(nodes, b));
    if !nodes.contains_key(b) {
        assert forall|p: int| 0 <= p < present(found).len() implies (#[trigger] present(
            found,
        )[p]).id@ != b by {
            let j = choose|j: int| 0 <= j < found.len() && found[j] == Some(present(found)[p]);
            assert(found[j] == lookup(nodes, targets[j]));
            assert(nodes.contains_key(targets[j]));
        }
    }
}

} // verus!
