//! Stable ranking by a descending integer key.
//!
//! A ranking of `n` items lists every index `0..n` exactly once, higher keys
//! first and, among equal keys, in their given order, which is what a stable
//! descending sort produces. Such a ranking is unique, so results that are
//! described by it are fully determined.
use vstd::prelude::*;

verus! {

/// Item `a` is listed before item `b`: its key is higher, or the keys tie and
/// `a` came first.
pub open spec fn ranks_before(keys: Seq<u128>, a: usize, b: usize) -> bool {
    keys[a as int] > keys[b as int] || (keys[a as int] == keys[b as int] && a < b)
}

/// Item `x` appears somewhere in `o`.
pub open spec fn listed(o: Seq<usize>, x: usize) -> bool {
    exists|i: int| 0 <= i < o.len() && #[trigger] o[i] == x
}

/// `o` ranks the first `n` items of `keys` in stable descending key order.
pub open spec fn is_rank_of(keys: Seq<u128>, n: int, o: Seq<usize>) -> bool {
    &&& 0 <= n <= keys.len()
    &&& o.len() == n
    &&& forall|i: int| 0 <= i < o.len() ==> #[trigger] o[i] < n
    &&& forall|x: usize| x < n ==> #[trigger] listed(o, x)
    &&& forall|i: int, j: int| 0 <= i < j < o.len() ==> ranks_before(keys, #[trigger] o[i], #[trigger] o[j])
}

/// `o` ranks all items of `keys` in stable descending key order.
pub open spec fn is_desc_rank(keys: Seq<u128>, o: Seq<usize>) -> bool {
    is_rank_of(keys, keys.len() as int, o)
}

/// The stable descending ranking of `keys`.
pub open spec fn desc_rank(keys: Seq<u128>) -> Seq<usize> {
    choose|o: Seq<usize>| is_desc_rank(keys, o)
}

proof fn lemma_rank_prefix(keys: Seq<u128>, o1: Seq<usize>, o2: Seq<usize>, k: int)
    requires
        is_desc_rank(keys, o1),
        is_desc_rank(keys, o2),
        0 <= k < o1.len(),
    ensures
        forall|m: int| 0 <= m <= k ==> o1[m] == o2[m],
    decreases k,
{
    if k > 0 {
        lemma_rank_prefix(keys, o1, o2, k - 1);
    }
    let x = o1[k];
    let y = o2[k];
    if x != y {
        assert(x < keys.len() && y < keys.len());
        assert(listed(o1, y) && listed(o2, x));
        let p = choose|i: int| 0 <= i < o1.len() && #[trigger] o1[i] == y;
        let q = choose|i: int| 0 <= i < o2.len() && #[trigger] o2[i] == x;
        if p < k {
            assert(o2[p] == y);
            assert(ranks_before(keys, o2[p], o2[k]));
        }
        if q < k {
            assert(o1[q] == x);
            assert(ranks_before(keys, o1[q], o1[k]));
        }
        assert(p > k && q > k);
        assert(ranks_before(keys, o1[k], o1[p]));
        assert(ranks_before(keys, o2[k], o2[q]));
    }
}

/// A stable descending ranking is unique: two rankings of the same keys are equal.
pub proof fn lemma_desc_rank_unique(keys: Seq<u128>, o1: Seq<usize>, o2: Seq<usize>)
    requires
        is_desc_rank(keys, o1),
        is_desc_rank(keys, o2),
    ensures
        o1 == o2,
{
    if o1.len() > 0 {
        lemma_rank_prefix(keys, o1, o2, o1.len() - 1);
    }
    assert(o1 =~= o2);
}

/// Any ranking of `keys` is the ranking `desc_rank(keys)`.
pub proof fn lemma_is_desc_rank(keys: Seq<u128>, o: Seq<usize>)
    requires
        is_desc_rank(keys, o),
    ensures
        desc_rank(keys) == o,
{
    lemma_desc_rank_unique(keys, desc_rank(keys), o);
}

/// Where a new item with key `k` goes in the ranking `o`: after every item
/// whose key is at least `k`.
spec fn insert_position(keys: Seq<u128>, o: Seq<usize>, k: u128) -> int
    decreases o.len(),
{
    if o.len() == 0 {
        0
    } else if keys[o[0] as int] < k {
        0
    } else {
        1 + insert_position(keys, o.drop_first(), k)
    }
}

proof fn lemma_insert_position(keys: Seq<u128>, o: Seq<usize>, k: u128)
    ensures
        0 <= insert_position(keys, o, k) <= o.len(),
        forall|i: int| 0 <= i < insert_position(keys, o, k) ==> keys[#[trigger] o[i] as int] >= k,
        insert_position(keys, o, k) < o.len() ==> keys[o[insert_position(keys, o, k)] as int] < k,
    decreases o.len(),
{
    if o.len() > 0 && !(keys[o[0] as int] < k) {
        let t = o.drop_first();
        lemma_insert_position(keys, t, k);
        assert forall|i: int| 0 <= i < insert_position(keys, o, k) implies keys[#[trigger] o[i] as int] >= k by {
            if i > 0 {
                assert(o[i] == t[i - 1]);
            }
        }
        if insert_position(keys, o, k) < o.len() {
            assert(o[insert_position(keys, o, k)] == t[insert_position(keys, t, k)]);
        }
    }
}

/// The first `n` items of `keys` have a ranking.
proof fn lemma_rank_of_exists(keys: Seq<u128>, n: int) -> (o: Seq<usize>)
    requires
        0 <= n <= keys.len(),
        keys.len() <= usize::MAX,
    ensures
        is_rank_of(keys, n, o),
    decreases n,
{
    if n == 0 {
        let o = Seq::<usize>::empty();
        assert forall|x: usize| x < 0 implies #[trigger] listed(o, x) by {}
        return o;
    }
    let old_o = lemma_rank_of_exists(keys, n - 1);
    let m = (n - 1) as usize;
    let km = keys[m as int];
    lemma_insert_position(keys, old_o, km);
    let p = insert_position(keys, old_o, km);
    let o = old_o.insert(p, m);
    assert(o.len() == n);
    assert forall|i: int| 0 <= i < o.len() implies #[trigger] o[i] < n by {
        if i < p {
            assert(o[i] == old_o[i]);
        } else if i > p {
            assert(o[i] == old_o[i - 1]);
        }
    }
    assert forall|x: usize| x < n implies #[trigger] listed(o, x) by {
        if x == m {
            assert(o[p] == x);
        } else {
            assert(listed(old_o, x));
            let i = choose|i: int| 0 <= i < old_o.len() && #[trigger] old_o[i] == x;
            if i < p {
                assert(o[i] == x);
            } else {
                assert(o[i + 1] == x);
            }
        }
    }
    assert forall|i: int, j: int| 0 <= i < j < o.len() implies ranks_before(keys, #[trigger] o[i], #[trigger] o[j]) by {
        if j < p {
            assert(o[i] == old_o[i] && o[j] == old_o[j]);
        } else if j == p {
            assert(o[i] == old_o[i]);
            assert(old_o[i] < m);
        } else if i > p {
            assert(o[i] == old_o[i - 1] && o[j] == old_o[j - 1]);
        } else if i == p {
            assert(o[j] == old_o[j - 1]);
            assert(keys[m as int] > keys[old_o[p] as int]);
            if j - 1 > p {
                assert(ranks_before(keys, old_o[p], old_o[j - 1]));
            }
        } else {
            assert(o[i] == old_o[i] && o[j] == old_o[j - 1]);
            assert(ranks_before(keys, old_o[i], old_o[j - 1]));
        }
    }
    o
}

/// Every sequence of keys that can be indexed by `usize` has its stable
/// descending ranking.
pub proof fn lemma_desc_rank_exists(keys: Seq<u128>)
    requires
        keys.len() <= usize::MAX,
    ensures
        is_desc_rank(keys, desc_rank(keys)),
{
    let o = lemma_rank_of_exists(keys, keys.len() as int);
    lemma_is_desc_rank(keys, o);
}

/// A ranking lists each item at most once.
pub proof fn lemma_rank_distinct(keys: Seq<u128>, o: Seq<usize>)
    requires
        is_desc_rank(keys, o),
    ensures
        forall|i: int, j: int| 0 <= i < j < o.len() ==> #[trigger] o[i] != #[trigger] o[j],
{
    assert forall|i: int, j: int| 0 <= i < j < o.len() implies #[trigger] o[i] != #[trigger] o[j] by {
        assert(ranks_before(keys, o[i], o[j]));
    }
}

/// An item that is not among the first `n` places of a ranking has no higher
/// key than the item in place `n - 1`.
pub proof fn lemma_rank_prefix_dominates(keys: Seq<u128>, o: Seq<usize>, n: int, x: usize)
    requires
        is_desc_rank(keys, o),
        0 < n <= o.len(),
        x < keys.len(),
        forall|k: int| 0 <= k < n ==> #[trigger] o[k] != x,
    ensures
        keys[x as int] <= keys[o[n - 1] as int],
{
    assert(listed(o, x));
    let p = choose|i: int| 0 <= i < o.len() && #[trigger] o[i] == x;
    assert(p >= n);
    assert(ranks_before(keys, o[n - 1], o[p]));
}

/// Computes the stable descending ranking of `keys` (insertion sort).
pub fn rank_desc(keys: &Vec<u128>) -> (o: Vec<usize>)
    ensures
        o@ == desc_rank(keys@),
        is_desc_rank(keys@, o@),
{
    let mut o: Vec<usize> = Vec::new();
    let mut m: usize = 0;
    while m < keys.len()
        invariant
            m <= keys.len(),
            is_rank_of(keys@, m as int, o@),
        decreases keys.len() - m,
    {
        let mut p: usize = 0;
        while p < o.len() && keys[o[p]] >= keys[m]
            invariant
                m < keys.len(),
                is_rank_of(keys@, m as int, o@),
                p <= o.len(),
                forall|i: int| 0 <= i < p ==> keys@[o@[i] as int] >= keys@[m as int],
            decreases o.len() - p,
        {
            p = p + 1;
        }
        let ghost old_o = o@;
        o.insert(p, m);
        proof {
            let n = o@;
            assert(n.len() == m + 1);
            assert forall|i: int| 0 <= i < n.len() implies #[trigger] n[i] < m + 1 by {
                if i < p {
                    assert(n[i] == old_o[i]);
                } else if i > p {
                    assert(n[i] == old_o[i - 1]);
                }
            }
            assert forall|x: usize| x < m + 1 implies #[trigger] listed(n, x) by {
                if x == m {
                    assert(n[p as int] == x);
                } else {
                    assert(listed(old_o, x));
                    let i = choose|i: int| 0 <= i < old_o.len() && #[trigger] old_o[i] == x;
                    if i < p {
                        assert(n[i] == x);
                    } else {
                        assert(n[i + 1] == x);
                    }
                }
            }
            assert forall|i: int, j: int| 0 <= i < j < n.len() implies ranks_before(keys@, #[trigger] n[i], #[trigger] n[j]) by {
                if j < p {
                    assert(n[i] == old_o[i] && n[j] == old_o[j]);
                } else if j == p {
                    assert(n[i] == old_o[i]);
                    assert(old_o[i] < m);
                } else if i > p {
                    assert(n[i] == old_o[i - 1] && n[j] == old_o[j - 1]);
                } else if i == p {
                    assert(n[j] == old_o[j - 1]);
                    assert(keys@[m as int] > keys@[old_o[p as int] as int]);
                    if j - 1 > p {
                        assert(ranks_before(keys@, old_o[p as int], old_o[j - 1]));
                    }
                } else {
                    assert(n[i] == old_o[i] && n[j] == old_o[j - 1]);
                    assert(ranks_before(keys@, old_o[i], old_o[j - 1]));
                }
            }
        }
        m = m + 1;
    }
    proof {
        lemma_is_desc_rank(keys@, o@);
    }
    o
}

} // verus!
