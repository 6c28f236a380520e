use vstd::prelude::*;

verus! {

/// The nearer of two optional hits, each given by its distance key; a missing
/// hit loses to any present one, and of two equal keys the first is kept.
pub open spec fn nearer(first: Option<u32>, second: Option<u32>) -> Option<u32> {
    match (first, second) {
        (None, _) => second,
        (_, None) => first,
        (Some(x), Some(y)) => if y < x {
            second
        } else {
            first
        },
    }
}

/// The key of the nearest hit among the members of a scene, scanned in order.
pub open spec fn nearest_key(hits: Seq<Option<u32>>) -> Option<u32>
    decreases hits.len(),
{
    if hits.len() == 0 {
        None
    } else {
        nearer(nearest_key(hits.drop_last()), hits.last())
    }
}

/// Member `k` holds the nearest hit: its key is no larger than any other key,
/// and every member before it misses or lies strictly farther away.
pub open spec fn is_nearest(hits: Seq<Option<u32>>, k: int) -> bool {
    &&& 0 <= k < hits.len()
    &&& hits[k] is Some
    &&& forall|m: int| 0 <= m < hits.len() && #[trigger] hits[m] is Some ==> hits[k]->0 <= hits[m]->0
    &&& forall|m: int| 0 <= m < k && #[trigger] hits[m] is Some ==> hits[k]->0 < hits[m]->0
}

/// Picks, among the hits that the members of a scene report for one ray,
/// the nearest one. `hits[k]` is member `k`'s hit as a distance key (any
/// integer that orders hits as their distances along the ray do), or `None`
/// where the member misses. The result is the index of the first member whose
/// key is smallest, or `None` when every member misses.
pub fn nearest_hit(hits: &Vec<Option<u32>>) -> (r: Option<usize>)
    ensures
        r is None <==> forall|m: int| 0 <= m < hits@.len() ==> #[trigger] hits@[m] is None,
        r is None <==> nearest_key(hits@) is None,
        r matches Some(k) ==> is_nearest(hits@, k as int) && hits@[k as int] == nearest_key(hits@),
{
    let n: usize = hits.len();
    let mut best: Option<usize> = None;
    let mut closest: u32 = 0;
    let mut k: usize = 0;
    while k < n
        invariant
            n == hits@.len(),
            k <= n,
            best is None <==> forall|m: int| 0 <= m < k ==> #[trigger] hits@[m] is None,
            best is None <==> nearest_key(hits@.subrange(0, k as int)) is None,
            best matches Some(b) ==> {
                &&& b < k
                &&& hits@[b as int] == Some(closest)
                &&& nearest_key(hits@.subrange(0, k as int)) == Some(closest)
                &&& forall|m: int| 0 <= m < k && #[trigger] hits@[m] is Some ==> closest <= hits@[m]->0
                &&& forall|m: int| 0 <= m < b && #[trigger] hits@[m] is Some ==> closest < hits@[m]->0
            },
        decreases n - k,
    {
        proof {
            assert(hits@.subrange(0, k + 1).drop_last() =~= hits@.subrange(0, k as int));
        }
        match hits[k] {
            Some(d) => {
                if best.is_none() || d < closest {
                    best = Some(k);
                    closest = d;
                }
            },
            None => {},
        }
        k = k + 1;
    }
    assert(hits@.subrange(0, n as int) =~= hits@);
    best
}

/// The nearest key is `None` exactly when every member misses; otherwise it is
/// a key that some member reports and that no member's key undercuts.
pub proof fn lemma_nearest_key_is_minimum(hits: Seq<Option<u32>>)
    ensures
        nearest_key(hits) is None <==> forall|m: int| 0 <= m < hits.len() ==> #[trigger] hits[m] is None,
        nearest_key(hits) matches Some(x) ==> {
            &&& hits.contains(Some(x))
            &&& forall|m: int| 0 <= m < hits.len() && #[trigger] hits[m] is Some ==> x <= hits[m]->0
        },
    decreases hits.len(),
{
    if hits.len() > 0 {
        let rest = hits.drop_last();
        let last = hits.len() - 1;
        lemma_nearest_key_is_minimum(rest);
        assert forall|m: int| 0 <= m < rest.len() implies #[trigger] rest[m] == hits[m] by {}
        if nearest_key(hits) is None {
            assert forall|m: int| 0 <= m < hits.len() implies #[trigger] hits[m] is None by {
                if m < last {
                    assert(rest[m] is None);
                }
            }
        } else {
            assert(!forall|m: int| 0 <= m < hits.len() ==> #[trigger] hits[m] is None) by {
                if nearest_key(rest) is Some {
                    let i = choose|i: int| 0 <= i < rest.len() && rest[i] == nearest_key(rest);
                    assert(hits[i] is Some);
                } else {
                    assert(hits[last] is Some);
                }
            }
            let x = nearest_key(hits)->0;
            if nearest_key(hits) == hits.last() {
                assert(hits[last] == Some(x));
            } else {
                let i = choose|i: int| 0 <= i < rest.len() && rest[i] == Some(x);
                assert(hits[i] == Some(x));
            }
            assert forall|m: int| 0 <= m < hits.len() && #[trigger] hits[m] is Some implies x
                <= hits[m]->0 by {
                if m < last {
                    assert(rest[m] is Some);
                }
            }
        }
    }
}

/// The nearest hit does not depend on the order in which the members of a
/// scene are listed: any two listings of the same hits find the same nearest
/// key.
pub proof fn lemma_nearest_order_free(a: Seq<Option<u32>>, b: Seq<Option<u32>>)
    requires
        a.to_multiset() == b.to_multiset(),
    ensures
        nearest_key(a) == nearest_key(b),
{
    broadcast use vstd::seq_lib::group_to_multiset_ensures;

    lemma_nearest_key_is_minimum(a);
    lemma_nearest_key_is_minimum(b);
    assert forall|v: Option<u32>| a.contains(v) <==> b.contains(v) by {
        assert(a.contains(v) <==> a.to_multiset().count(v) > 0);
        assert(b.contains(v) <==> b.to_multiset().count(v) > 0);
    }
    if nearest_key(a) is None && nearest_key(b) is Some {
        let i = choose|i: int| 0 <= i < a.len() && a[i] == nearest_key(b);
        assert(a[i] is None);
    }
    if nearest_key(b) is None && nearest_key(a) is Some {
        let i = choose|i: int| 0 <= i < b.len() && b[i] == nearest_key(a);
        assert(b[i] is None);
    }
    if let (Some(x), Some(y)) = (nearest_key(a), nearest_key(b)) {
        let i = choose|i: int| 0 <= i < a.len() && a[i] == Some(y);
        let j = choose|j: int| 0 <= j < b.len() && b[j] == Some(x);
        assert(a[i] is Some);
        assert(b[j] is Some);
    }
}

} // verus!
