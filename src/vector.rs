use vstd::prelude::*;

use crate::error::{ErrorView, HelixError, HelixResult};
use crate::rank::{is_top_k, select_top_k};

verus! {

/// How a stored vector is scored against a query; a higher score is
/// always more similar.
#[derive(Clone, Copy, Debug, PartialEq, Eq, Structural)]
pub enum SimilarityMetric {
    Cosine,
    L2,
    Dot,
}

pub open spec fn metric_name(m: SimilarityMetric) -> Seq<char> {
    match m {
        SimilarityMetric::Cosine => "Cosine"@,
        SimilarityMetric::L2 => "L2"@,
        SimilarityMetric::Dot => "Dot"@,
    }
}

impl SimilarityMetric {
    /// The metric's name as telemetry reports it.
    pub fn name(&self) -> (r: &'static str)
        ensures
            r@ == metric_name(*self),
    {
        match self {
            SimilarityMetric::Cosine => "Cosine",
            SimilarityMetric::L2 => "L2",
            SimilarityMetric::Dot => "Dot",
        }
    }
}

/// The metric a query uses when the request names none.
pub fn default_metric() -> (r: SimilarityMetric)
    ensures
        r == SimilarityMetric::Cosine,
{
    SimilarityMetric::Cosine
}

/// The number of matches a query returns when the request names none.
pub fn default_k() -> (r: usize)
    ensures
        r == 10,
{
    10
}

/// A stored vector. Each component is held as the bit pattern of an `f32`.
pub struct VectorRecord {
    pub id: String,
    pub values: Vec<u32>,
    pub metadata: serde_json::Value,
}

pub open spec fn empty_id_message() -> Seq<char> {
    "id: must not be empty"@
}

pub open spec fn empty_query_message() -> Seq<char> {
    "query vector must not be empty"@
}

impl VectorRecord {
    pub fn new(id: String, values: Vec<u32>, metadata: serde_json::Value) -> (r: VectorRecord)
        ensures
            r.id@ == id@,
            r.values@ == values@,
            r.metadata == metadata,
    {
        VectorRecord { id, values, metadata }
    }

    /// Accepts the record when its id is non-empty.
    pub fn validate(&self) -> (r: HelixResult<()>)
        ensures
            r is Ok <==> self.id@.len() > 0,
            r matches Err(e) ==> e@ == ErrorView::Storage(empty_id_message()),
    {
        if self.id.as_str().unicode_len() == 0 {
            Err(HelixError::Storage(String::from_str("id: must not be empty")))
        } else {
            Ok(())
        }
    }
}

/// Accepts a query vector when it has at least one component.
pub fn check_query(query: &Vec<u32>) -> (r: HelixResult<()>)
    ensures
        r is Ok <==> query@.len() > 0,
        r matches Err(e) ==> e@ == ErrorView::Query(empty_query_message()),
{
    if query.len() == 0 {
        Err(HelixError::Query(String::from_str("query vector must not be empty")))
    } else {
        Ok(())
    }
}

/// The items at the positions of `order`, in that order.
pub open spec fn picked<T>(items: Seq<T>, order: Seq<usize>) -> Seq<T> {
    Seq::new(order.len(), |p: int| items[order[p] as int])
}

/// Moves the items at the given distinct positions out of `items`, in the
/// order given.
pub fn pick_in_order<T>(items: Vec<T>, order: &Vec<usize>) -> (r: Vec<T>)
    requires
        forall|p: int| 0 <= p < order@.len() ==> order@[p] < items@.len(),
        forall|p: int, q: int|
            0 <= p < q < order@.len() ==> #[trigger] order@[p] != #[trigger] order@[q],
    ensures
        r@ == picked(items@, order@),
{
    let ghost orig = items@;
    let n = items.len();
    let mut items = items;
    let mut rev: Vec<Option<T>> = Vec::new();
    while items.len() > 0
        invariant
            n == orig.len(),
            items@ == orig.subrange(0, items@.len() as int),
            rev@.len() + items@.len() == n,
            forall|j: int| 0 <= j < rev@.len() ==> rev@[j] == Some(orig[n - 1 - j]),
        decreases items@.len(),
    {
        let x = items.pop();
        match x {
            Some(v) => rev.push(Some(v)),
            None => {},
        }
    }
    let mut slots: Vec<Option<T>> = Vec::new();
    while rev.len() > 0
        invariant
            n == orig.len(),
            rev@.len() + slots@.len() == n,
            forall|j: int| 0 <= j < rev@.len() ==> rev@[j] == Some(orig[n - 1 - j]),
            forall|j: int| 0 <= j < slots@.len() ==> slots@[j] == Some(orig[j]),
        decreases rev@.len(),
    {
        let x = rev.pop();
        match x {
            Some(v) => slots.push(v),
            None => {},
        }
    }
    let mut r: Vec<T> = Vec::new();
    let mut q: usize = 0;
    while q < order.len()
        invariant
            n == orig.len(),
            slots@.len() == n,
            q <= order@.len(),
            forall|p: int| 0 <= p < order@.len() ==> order@[p] < n,
            forall|p: int, s: int|
                0 <= p < s < order@.len() ==> #[trigger] order@[p] != #[trigger] order@[s],
            forall|p: int| q <= p < order@.len() ==> slots@[#[trigger] order@[p] as int] == Some(
                orig[order@[p] as int],
            ),
            r@ == picked(orig, order@.subrange(0, q as int)),
        decreases order@.len() - q,
    {
        let idx = order[q];
        let ghost before = slots@;
        let s = slots.remove(idx);
        slots.insert(idx, None);
        assert(slots@ =~= before.update(idx as int, None));
        assert forall|p: int| q + 1 <= p < order@.len() implies slots@[#[trigger] order@[p] as int]
            == Some(orig[order@[p] as int]) by {
            assert(order@[p] != order@[q as int]);
        }
        match s {
            Some(v) => {
                r.push(v);
            },
            None => {},
        }
        q = q + 1;
        assert(r@ =~= picked(orig, order@.subrange(0, q as int)));
    }
    assert(order@.subrange(0, q as int) =~= order@);
    r
}

/// The records of the `k` highest scores, best first, ties in scan order.
/// `scores[i]` is the score of `records[i]`, as the bit pattern of an `f32`.
pub fn rank_records(records: Vec<VectorRecord>, scores: &Vec<u32>, k: usize) -> (r: Vec<
    VectorRecord,
>)
    requires
        scores@.len() == records@.len(),
    ensures
        exists|order: Seq<usize>|
            is_top_k(scores@, k as nat, order) && r@ == picked(records@, order),
{
    let order = select_top_k(scores, k);
    proof {
        assert forall|p: int, q: int| 0 <= p < q < order@.len() implies #[trigger] order@[p]
            != #[trigger] order@[q] by {
            assert(crate::rank::ranks_before(scores@, order@[p] as int, order@[q] as int));
        }
    }
    pick_in_order(records, &order)
}

/// A search over the scanned records: fails when the query vector is
/// empty, else returns the `k` best-scored records, best first.
pub fn search_ranked(
    query: &Vec<u32>,
    records: Vec<VectorRecord>,
    scores: &Vec<u32>,
    k: usize,
) -> (r: HelixResult<Vec<VectorRecord>>)
    requires
        scores@.len() == records@.len(),
    ensures
        r is Err <==> query@.len() == 0,
        r matches Err(e) ==> e@ == ErrorView::Query(empty_query_message()),
        r matches Ok(found) ==> exists|order: Seq<usize>|
            is_top_k(scores@, k as nat, order) && found@ == picked(records@, order),
{
    check_query(query)?;
    Ok(rank_records(records, scores, k))
}

} // verus!
