//! Ordered collection of the dispatcher's results.
//!
//! Requests are submitted with their position in the generator's order;
//! completions arrive in whatever order the network decides. [`collect_ordered`]
//! places each completed record back at its submission position, so row `i`
//! of the report always belongs to combination `i` — and a request that
//! failed at the transport layer leaves its own slot empty without touching
//! any sibling's.

use vstd::prelude::*;
use vstd::pervasive::VecAdditionalExecFns;

verus! {

/// The outcome of one completed exchange: any received status counts as a
/// completed transaction, whatever the status code says. `body_size` is the
/// size of the decoded response text, in bytes.
#[derive(Clone, Debug, PartialEq, Eq)]
pub struct ResultRecord {
    pub url: String,
    pub method: String,
    pub status: u16,
    pub latency_ms: u64,
    pub body_size: u64,
}

/// Settles one request: a completed exchange (any status) becomes a record,
/// a transport failure becomes no record at all.
pub fn settle(
    url: String,
    method: String,
    status: Option<u16>,
    latency_ms: u64,
    body_size: u64,
) -> (r: Option<ResultRecord>)
    ensures
        match status {
            Some(st) => r == Some(
                ResultRecord { url, method, status: st, latency_ms, body_size },
            ),
            None => r is None,
        },
{
    match status {
        Some(st) => Some(ResultRecord { url, method, status: st, latency_ms, body_size }),
        None => None,
    }
}

/// Places each completion at its submission position.
///
/// `completions` carries, in any order, the records of the requests that
/// completed, each with the position it was submitted at; positions are
/// distinct and below `n`. The result has one slot per submitted request:
/// slot `i` holds the record submitted at position `i`, and stays empty
/// exactly for the requests that never completed.
pub fn collect_ordered(n: usize, completions: Vec<(usize, ResultRecord)>) -> (r: Vec<
    Option<ResultRecord>,
>)
    requires
        forall|j: int| 0 <= j < completions@.len() ==> (#[trigger] completions@[j]).0 < n,
        forall|j: int, k: int|
            0 <= j < k < completions@.len() ==> completions@[j].0 != completions@[k].0,
    ensures
        r@.len() == n,
        forall|j: int|
            0 <= j < completions@.len() ==> r@[(#[trigger] completions@[j]).0 as int] == Some(
                completions@[j].1,
            ),
        forall|i: int|
            0 <= i < n ==> ((#[trigger] r@[i]) is Some <==> exists|j: int|
                0 <= j < completions@.len() && (#[trigger] completions@[j]).0 == i),
{
    let ghost all = completions@;
    let mut r: Vec<Option<ResultRecord>> = Vec::new();
    let mut i: usize = 0;
    while i < n
        invariant
            i <= n,
            r@.len() == i,
            forall|k: int| 0 <= k < i ==> (#[trigger] r@[k]) is None,
        decreases n - i,
    {
        r.push(None);
        i = i + 1;
    }
    let mut c = completions;
    while c.len() > 0
        invariant
            c@.len() <= all.len(),
            c@ =~= all.take(c@.len() as int),
            forall|j: int| 0 <= j < all.len() ==> (#[trigger] all[j]).0 < n,
            forall|j: int, k: int| 0 <= j < k < all.len() ==> all[j].0 != all[k].0,
            r@.len() == n,
            forall|j: int|
                c@.len() <= j < all.len() ==> r@[(#[trigger] all[j]).0 as int] == Some(all[j].1),
            forall|i2: int|
                0 <= i2 < n ==> ((#[trigger] r@[i2]) is Some <==> exists|j: int|
                    c@.len() <= j < all.len() && (#[trigger] all[j]).0 == i2),
        decreases c@.len(),
    {
        let ghost m = c@.len() as int;
        if let Some((idx, rec)) = c.pop() {
            proof {
                assert((idx, rec) == all[m - 1]);
                assert(c@ =~= all.take(m - 1));
            }
            r.set(idx, Some(rec));
            proof {
                assert forall|i2: int|
                    0 <= i2 < n implies ((#[trigger] r@[i2]) is Some <==> exists|j: int|
                        m - 1 <= j < all.len() && (#[trigger] all[j]).0 == i2) by {
                    if i2 == idx {
                        assert(all[m - 1].0 == i2);
                    } else {
                        if exists|j: int| m - 1 <= j < all.len() && (#[trigger] all[j]).0 == i2 {
                            let j = choose|j: int|
                                m - 1 <= j < all.len() && (#[trigger] all[j]).0 == i2;
                            assert(j != m - 1);
                            assert(m <= j < all.len() && all[j].0 == i2);
                        }
                    }
                }
            }
        }
    }
    proof {
        assert(all.take(0) =~= Seq::<(usize, ResultRecord)>::empty());
    }
    r
}

/// Collection is independent of completion order: two runs whose completed
/// requests are the same — whatever order the completions arrived in —
/// yield the same rows in the same positions, and so the same row count.
pub proof fn lemma_collection_order_independent(
    n: int,
    c1: Seq<(usize, ResultRecord)>,
    c2: Seq<(usize, ResultRecord)>,
    r1: Seq<Option<ResultRecord>>,
    r2: Seq<Option<ResultRecord>>,
)
    requires
        forall|j: int, k: int| 0 <= j < k < c1.len() ==> c1[j].0 != c1[k].0,
        forall|j: int, k: int| 0 <= j < k < c2.len() ==> c2[j].0 != c2[k].0,
        forall|p: (usize, ResultRecord)| c1.contains(p) <==> c2.contains(p),
        r1.len() == n,
        r2.len() == n,
        forall|j: int| 0 <= j < c1.len() ==> r1[(#[trigger] c1[j]).0 as int] == Some(c1[j].1),
        forall|j: int| 0 <= j < c2.len() ==> r2[(#[trigger] c2[j]).0 as int] == Some(c2[j].1),
        forall|i: int|
            0 <= i < n ==> ((#[trigger] r1[i]) is Some <==> exists|j: int|
                0 <= j < c1.len() && (#[trigger] c1[j]).0 == i),
        forall|i: int|
            0 <= i < n ==> ((#[trigger] r2[i]) is Some <==> exists|j: int|
                0 <= j < c2.len() && (#[trigger] c2[j]).0 == i),
    ensures
        r1 == r2,
        r1.len() == r2.len(),
{
    assert forall|i: int| 0 <= i < n implies r1[i] == r2[i] by {
        if r1[i] is Some {
            let j1 = choose|j: int| 0 <= j < c1.len() && (#[trigger] c1[j]).0 == i;
            assert(c1.contains(c1[j1]));
            let j2 = choose|j: int| 0 <= j < c2.len() && c2[j] == c1[j1];
            assert(c2[j2].0 == i);
            assert(r2[i] == Some(c2[j2].1));
            assert(r1[i] == Some(c1[j1].1));
        } else {
            if r2[i] is Some {
                let j2 = choose|j: int| 0 <= j < c2.len() && (#[trigger] c2[j]).0 == i;
                assert(c2.contains(c2[j2]));
                let j1 = choose|j: int| 0 <= j < c1.len() && c1[j] == c2[j2];
                assert(c1[j1].0 == i);
            }
        }
    }
    assert(r1 =~= r2);
}

} // verus!
