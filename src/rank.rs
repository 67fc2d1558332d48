use vstd::prelude::*;

verus! {

/// Whether the `f32` with bit pattern `bits` is a NaN: all exponent bits
/// set and a non-zero mantissa.
pub open spec fn is_nan_bits(bits: u32) -> bool {
    bits % 0x8000_0000 > 0x7f80_0000
}

/// The rank of a score as an unsigned integer, `bits` being the bit pattern
/// of an `f32`: numbers keep their order, equal numbers share a key (so
/// -0.0 and 0.0 tie), and a NaN ranks below every number.
pub open spec fn score_key(bits: u32) -> u32 {
    if is_nan_bits(bits) {
        0
    } else if bits > 0x8000_0000 {
        (0xffff_ffff - bits) as u32
    } else if bits == 0x8000_0000 {
        0x8000_0000
    } else {
        (bits + 0x8000_0000) as u32
    }
}

/// Two scores that are numbers share a key exactly when they are equal as
/// `f32` values: the same bit pattern, or both zeros of either sign.
pub proof fn lemma_score_key_ties(a: u32, b: u32)
    requires
        !is_nan_bits(a),
        !is_nan_bits(b),
    ensures
        score_key(a) == score_key(b) <==> (a == b || (a % 0x8000_0000 == 0 && b % 0x8000_0000
            == 0)),
{
}

/// Candidate `a` ranks ahead of candidate `b`: a higher score, or an equal
/// score and an earlier position in the scan.
pub open spec fn ranks_before(scores: Seq<u32>, a: int, b: int) -> bool {
    score_key(scores[a]) > score_key(scores[b]) || (score_key(scores[a]) == score_key(scores[b])
        && a < b)
}

/// No element of `r` is `j`.
pub open spec fn absent(r: Seq<usize>, j: int) -> bool {
    forall|p: int| 0 <= p < r.len() ==> r[p] != j
}

pub open spec fn min_nat(a: nat, b: nat) -> nat {
    if a <= b {
        a
    } else {
        b
    }
}

/// `r` lists the `k` best-ranked positions of `scores` (all of them when
/// there are fewer), best first: descending score, ties in scan order.
pub open spec fn is_top_k(scores: Seq<u32>, k: nat, r: Seq<usize>) -> bool {
    &&& r.len() == min_nat(k, scores.len())
    &&& forall|p: int| 0 <= p < r.len() ==> r[p] < scores.len()
    &&& forall|p: int, q: int|
        0 <= p < q < r.len() ==> ranks_before(scores, #[trigger] r[p] as int, #[trigger] r[q] as int)
    &&& forall|j: int|
        0 <= j < scores.len() && #[trigger] absent(r, j) ==> forall|p: int|
            0 <= p < r.len() ==> ranks_before(scores, #[trigger] r[p] as int, j)
}

/// What holds of the retained positions after the first `i` candidates.
spec fn retained(scores: Seq<u32>, k: nat, r: Seq<usize>, i: int) -> bool {
    &&& 0 <= i <= scores.len()
    &&& r.len() == min_nat(k, i as nat)
    &&& forall|p: int| 0 <= p < r.len() ==> r[p] < i
    &&& forall|p: int, q: int|
        0 <= p < q < r.len() ==> ranks_before(scores, #[trigger] r[p] as int, #[trigger] r[q] as int)
    &&& forall|j: int|
        0 <= j < i && #[trigger] absent(r, j) ==> r.len() == k && forall|p: int|
            0 <= p < r.len() ==> ranks_before(scores, #[trigger] r[p] as int, j)
}

proof fn lemma_retain_step(scores: Seq<u32>, k: nat, r: Seq<usize>, i: usize, pos: int)
    requires
        retained(scores, k, r, i as int),
        i < scores.len(),
        0 <= pos <= r.len(),
        forall|p: int| 0 <= p < pos ==> score_key(scores[i as int]) <= score_key(scores[#[trigger] r[p] as int]),
        pos < r.len() ==> score_key(scores[i as int]) > score_key(scores[r[pos] as int]),
    ensures
        ({
            let mid = r.insert(pos, i);
            let next = if mid.len() > k {
                mid.drop_last()
            } else {
                mid
            };
            retained(scores, k, next, i + 1)
        }),
{
    let mid = r.insert(pos, i);
    let next = if mid.len() > k {
        mid.drop_last()
    } else {
        mid
    };
    assert forall|p: int, q: int| 0 <= p < q < mid.len() implies ranks_before(
        scores,
        #[trigger] mid[p] as int,
        #[trigger] mid[q] as int,
    ) by {
        if q < pos {
            assert(mid[p] == r[p] && mid[q] == r[q]);
        } else if q == pos {
            assert(mid[p] == r[p] && mid[q] == i);
        } else if p < pos {
            assert(mid[p] == r[p] && mid[q] == r[q - 1]);
        } else if p == pos {
            assert(mid[q] == r[q - 1]);
            if q - 1 > pos {
                assert(ranks_before(scores, r[pos] as int, r[q - 1] as int));
            }
        } else {
            assert(mid[p] == r[p - 1] && mid[q] == r[q - 1]);
        }
    }
    assert forall|p: int| 0 <= p < next.len() implies next[p] < i + 1 by {
        assert(next[p] == mid[p]);
        if p < pos {
            assert(mid[p] == r[p]);
        } else if p > pos {
            assert(mid[p] == r[p - 1]);
        }
    }
    assert forall|p: int, q: int| 0 <= p < q < next.len() implies ranks_before(
        scores,
        #[trigger] next[p] as int,
        #[trigger] next[q] as int,
    ) by {
        assert(next[p] == mid[p] && next[q] == mid[q]);
    }
    assert forall|j: int| 0 <= j < i + 1 && #[trigger] absent(next, j) implies next.len() == k
        && forall|p: int| 0 <= p < next.len() ==> ranks_before(scores, #[trigger] next[p] as int, j) by {
        if j == i {
            if pos < next.len() {
                assert(next[pos] == i);
            }
            assert(mid.len() > k);
            assert forall|p: int| 0 <= p < next.len() implies ranks_before(
                scores,
                #[trigger] next[p] as int,
                j,
            ) by {
                assert(next[p] == mid[p]);
                assert(mid[p] == r[p]);
                assert(r[p] < i);
            }
        } else if absent(r, j) {
            assert(r.len() == k);
            assert forall|p: int| 0 <= p < next.len() implies ranks_before(
                scores,
                #[trigger] next[p] as int,
                j,
            ) by {
                assert(next[p] == mid[p]);
                if p < pos {
                    assert(mid[p] == r[p]);
                } else if p == pos {
                    assert(ranks_before(scores, r[pos] as int, j));
                } else {
                    assert(mid[p] == r[p - 1]);
                }
            }
        } else {
            let w = choose|w: int| 0 <= w < r.len() && r[w] == j;
            let wm = if w < pos {
                w
            } else {
                w + 1
            };
            assert(mid[wm] == j);
            if wm < next.len() {
                assert(next[wm] == j);
            }
            assert(mid.len() > k);
            assert forall|p: int| 0 <= p < next.len() implies ranks_before(
                scores,
                #[trigger] next[p] as int,
                j,
            ) by {
                assert(next[p] == mid[p]);
            }
        }
    }
}

proof fn lemma_top_k_prefix(scores: Seq<u32>, k: nat, r1: Seq<usize>, r2: Seq<usize>, p: int)
    requires
        is_top_k(scores, k, r1),
        is_top_k(scores, k, r2),
        0 <= p < r1.len(),
    ensures
        forall|q: int| 0 <= q <= p ==> r1[q] == r2[q],
    decreases p,
{
    if p > 0 {
        lemma_top_k_prefix(scores, k, r1, r2, p - 1);
    }
    let a = r1[p] as int;
    let b = r2[p] as int;
    if a != b {
        if ranks_before(scores, a, b) {
            if absent(r2, a) {
                assert(ranks_before(scores, r2[p] as int, a));
            } else {
                let w = choose|w: int| 0 <= w < r2.len() && r2[w] == a;
                if w < p {
                    assert(r1[w] == r2[w]);
                    assert(ranks_before(scores, r1[w] as int, r1[p] as int));
                } else {
                    assert(ranks_before(scores, r2[p] as int, r2[w] as int));
                }
            }
        } else {
            assert(ranks_before(scores, b, a));
            if absent(r1, b) {
                assert(ranks_before(scores, r1[p] as int, b));
            } else {
                let w = choose|w: int| 0 <= w < r1.len() && r1[w] == b;
                if w < p {
                    assert(r1[w] == r2[w]);
                    assert(ranks_before(scores, r2[w] as int, r2[p] as int));
                } else {
                    assert(ranks_before(scores, r1[p] as int, r1[w] as int));
                }
            }
        }
    }
}

/// The top `k` are determined by the scores: two lists that both satisfy
/// `is_top_k` are the same list. So a search returns exactly the `k`
/// best-ranked records, whatever else is stored.
pub proof fn lemma_top_k_unique(scores: Seq<u32>, k: nat, r1: Seq<usize>, r2: Seq<usize>)
    requires
        is_top_k(scores, k, r1),
        is_top_k(scores, k, r2),
    ensures
        r1 == r2,
{
    if r1.len() > 0 {
        lemma_top_k_prefix(scores, k, r1, r2, r1.len() - 1);
    }
    assert(r1 =~= r2);
}

/// The first of the top `k` (for `k > 0` and at least one candidate) is a
/// best candidate: no score ranks above it, and an equal score comes later
/// in the scan.
pub proof fn lemma_top_k_first_is_best(scores: Seq<u32>, k: nat, r: Seq<usize>)
    requires
        is_top_k(scores, k, r),
        k > 0,
        scores.len() > 0,
    ensures
        r.len() > 0,
        forall|j: int|
            0 <= j < scores.len() ==> score_key(scores[r[0] as int]) >= score_key(#[trigger] scores[j]),
        forall|j: int|
            0 <= j < scores.len() && score_key(scores[r[0] as int]) == score_key(#[trigger] scores[j])
                ==> r[0] <= j,
{
    assert forall|j: int| 0 <= j < scores.len() implies score_key(scores[r[0] as int]) >= score_key(
        #[trigger] scores[j],
    ) && (score_key(scores[r[0] as int]) == score_key(scores[j]) ==> r[0] <= j) by {
        if absent(r, j) {
            assert(ranks_before(scores, r[0] as int, j));
        } else {
            let w = choose|w: int| 0 <= w < r.len() && r[w] == j;
            if w > 0 {
                assert(ranks_before(scores, r[0] as int, r[w] as int));
            }
        }
    }
}

fn score_key_exec(bits: u32) -> (r: u32)
    ensures
        r == score_key(bits),
{
    if bits % 0x8000_0000 > 0x7f80_0000 {
        0
    } else if bits > 0x8000_0000 {
        0xffff_ffff - bits
    } else if bits == 0x8000_0000 {
        0x8000_0000
    } else {
        bits + 0x8000_0000
    }
}

/// The positions of the `k` highest scores, best first, ties in scan order.
/// Each score is given by the bit pattern of an `f32`. The scan keeps at
/// most `k` candidates: when one more would exceed `k`, the lowest-ranked
/// is evicted.
pub fn select_top_k(scores: &Vec<u32>, k: usize) -> (r: Vec<usize>)
    ensures
        is_top_k(scores@, k as nat, r@),
{
    let n = scores.len();
    let mut r: Vec<usize> = Vec::new();
    let mut i: usize = 0;
    while i < n
        invariant
            n == scores@.len(),
            i <= n,
            retained(scores@, k as nat, r@, i as int),
        decreases n - i,
    {
        let key = score_key_exec(scores[i]);
        let mut pos: usize = 0;
        while pos < r.len() && !(key > score_key_exec(scores[r[pos]]))
            invariant
                n == scores@.len(),
                i < n,
                key == score_key(scores@[i as int]),
                retained(scores@, k as nat, r@, i as int),
                pos <= r@.len(),
                forall|p: int| 0 <= p < pos ==> key <= score_key(scores@[#[trigger] r@[p] as int]),
            decreases r@.len() - pos,
        {
            pos = pos + 1;
        }
        proof {
            lemma_retain_step(scores@, k as nat, r@, i, pos as int);
        }
        r.insert(pos, i);
        if r.len() > k {
            r.pop();
        }
        i = i + 1;
    }
    r
}

} // verus!
