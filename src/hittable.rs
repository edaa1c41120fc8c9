use vstd::prelude::*;

verus! {

/// Position `j` of `hits` holds an intersection.
pub open spec fn is_hit(hits: Seq<Option<u64>>, j: int) -> bool {
    0 <= j < hits.len() && hits[j] is Some
}

/// Some member of the scene was hit.
pub open spec fn has_hit(hits: Seq<Option<u64>>) -> bool {
    exists|j: int| is_hit(hits, j)
}

/// `k` is the distance of a hit in `hits` and no hit is nearer.
pub open spec fn is_nearest_key(hits: Seq<Option<u64>>, k: u64) -> bool {
    &&& hits.contains(Some(k))
    &&& forall|j: int| is_hit(hits, j) ==> k <= (#[trigger] hits[j])->0
}

/// Distance of the nearest hit, if any member was hit.
pub open spec fn nearest_distance(hits: Seq<Option<u64>>) -> Option<u64> {
    if exists|k: u64| is_nearest_key(hits, k) {
        Some(choose|k: u64| is_nearest_key(hits, k))
    } else {
        None
    }
}

proof fn lemma_nearest_key_unique(hits: Seq<Option<u64>>, k1: u64, k2: u64)
    requires
        is_nearest_key(hits, k1),
        is_nearest_key(hits, k2),
    ensures
        k1 == k2,
{
    let j1 = choose|j: int| 0 <= j < hits.len() && hits[j] == Some(k1);
    let j2 = choose|j: int| 0 <= j < hits.len() && hits[j] == Some(k2);
    assert(is_hit(hits, j1) && is_hit(hits, j2));
}

/// The nearest hit distance is the one of a hit at some position, and a
/// scene without hits has none.
pub proof fn lemma_nearest_distance(hits: Seq<Option<u64>>, i: int)
    requires
        is_hit(hits, i),
        forall|j: int| is_hit(hits, j) ==> hits[i]->0 <= (#[trigger] hits[j])->0,
    ensures
        nearest_distance(hits) == hits[i],
{
    assert(hits.contains(hits[i]));
    assert(is_nearest_key(hits, hits[i]->0));
    let k = choose|k: u64| is_nearest_key(hits, k);
    lemma_nearest_key_unique(hits, k, hits[i]->0);
}

/// The nearest hit does not depend on the order in which the members of a
/// scene are stored: two scenes holding the same members in any order give
/// the same nearest distance.
pub proof fn lemma_nearest_order_independent(a: Seq<Option<u64>>, b: Seq<Option<u64>>)
    requires
        a.to_multiset() == b.to_multiset(),
    ensures
        nearest_distance(a) == nearest_distance(b),
{
    a.to_multiset_ensures();
    b.to_multiset_ensures();
    assert forall|k: u64| is_nearest_key(a, k) implies is_nearest_key(b, k) by {
        assert(a.to_multiset().count(Some(k)) > 0);
        assert(b.contains(Some(k)));
        assert forall|j: int| is_hit(b, j) implies k <= (#[trigger] b[j])->0 by {
            assert(b.contains(b[j]));
            assert(b.to_multiset().count(b[j]) > 0);
            assert(a.contains(b[j]));
            let i = choose|i: int| 0 <= i < a.len() && a[i] == b[j];
            assert(is_hit(a, i));
        }
    }
    assert forall|k: u64| is_nearest_key(b, k) implies is_nearest_key(a, k) by {
        assert(b.to_multiset().count(Some(k)) > 0);
        assert(a.contains(Some(k)));
        assert forall|j: int| is_hit(a, j) implies k <= (#[trigger] a[j])->0 by {
            assert(a.contains(a[j]));
            assert(a.to_multiset().count(a[j]) > 0);
            assert(b.contains(a[j]));
            let i = choose|i: int| 0 <= i < b.len() && b[i] == a[j];
            assert(is_hit(b, i));
        }
    }
}

/// Index of the member whose hit is nearest, given for each member of the
/// scene the distance along the ray of its own nearest accepted intersection
/// (`None` where it is missed). Of equally near hits the one stored last
/// wins. Distances are order-preserving integer keys of the ray parameter.
pub fn nearest_hit(hits: &Vec<Option<u64>>) -> (r: Option<usize>)
    ensures
        r is None <==> !has_hit(hits@),
        r is None ==> nearest_distance(hits@) is None,
        r matches Some(i) ==> {
            &&& is_hit(hits@, i as int)
            &&& hits@[i as int] == nearest_distance(hits@)
            &&& forall|j: int| is_hit(hits@, j) ==> hits@[i as int]->0 <= (#[trigger] hits@[j])->0
            &&& forall|j: int| i < j && is_hit(hits@, j) ==> hits@[i as int]->0 < (#[trigger] hits@[j])->0
        },
{
    let mut best: Option<usize> = None;
    let mut closest: u64 = 0;
    let mut n: usize = 0;
    while n < hits.len()
        invariant
            n <= hits.len(),
            best is None <==> forall|j: int| 0 <= j < n ==> !is_hit(hits@, j),
            best matches Some(i) ==> {
                &&& i < n
                &&& hits@[i as int] == Some(closest)
                &&& forall|j: int| 0 <= j < n && is_hit(hits@, j) ==> closest <= (#[trigger] hits@[j])->0
                &&& forall|j: int| i < j < n && is_hit(hits@, j) ==> closest < (#[trigger] hits@[j])->0
            },
        decreases hits.len() - n,
    {
        match hits[n] {
            Some(t) => {
                assert(is_hit(hits@, n as int));
                if best.is_none() || t <= closest {
                    best = Some(n);
                    closest = t;
                }
            },
            None => {
                assert(!is_hit(hits@, n as int));
            },
        }
        n = n + 1;
    }
    match best {
        Some(i) => {
            proof {
                lemma_nearest_distance(hits@, i as int);
            }
        },
        None => {
            assert(!has_hit(hits@));
            assert(!exists|k: u64| is_nearest_key(hits@, k)) by {
                if exists|k: u64| is_nearest_key(hits@, k) {
                    let k = choose|k: u64| is_nearest_key(hits@, k);
                    let j = choose|j: int| 0 <= j < hits@.len() && hits@[j] == Some(k);
                    assert(is_hit(hits@, j));
                }
            }
        },
    }
    best
}

} // verus!
