//! Ordering a list by `item_order`, keeping items of equal order in the
//! order in which they came (a stable sort).

use vstd::prelude::*;
use crate::item::Item;
use vstd::set_lib::{lemma_int_range, lemma_map_size, lemma_subset_equality, set_int_range};

verus! {

/// `perm` lists each index of `0..n` exactly once.
pub open spec fn is_permutation(perm: Seq<int>, n: nat) -> bool {
    &&& perm.len() == n
    &&& forall|k: int| 0 <= k < n ==> 0 <= #[trigger] perm[k] < n
    &&& forall|a: int, b: int| 0 <= a < b < n ==> #[trigger] perm[a] != #[trigger] perm[b]
}

/// `sorted` is `items` rearranged by `perm`, ascending in `item_order`, and
/// items of equal order keep the relative order they have in `items`.
pub open spec fn stable_sort_witness(items: Seq<Item>, sorted: Seq<Item>, perm: Seq<int>) -> bool {
    &&& sorted.len() == items.len()
    &&& is_permutation(perm, items.len())
    &&& forall|k: int| 0 <= k < sorted.len() ==> #[trigger] sorted[k] == items[perm[k]]
    &&& forall|a: int, b: int|
        0 <= a < b < sorted.len() ==> #[trigger] sorted[a].item_order <= #[trigger] sorted[b].item_order
    &&& forall|a: int, b: int|
        0 <= a < b < sorted.len() && sorted[a].item_order == sorted[b].item_order
            ==> #[trigger] perm[a] < #[trigger] perm[b]
}

/// `sorted` is a stable sort of `items` by `item_order`.
pub open spec fn is_stable_sort(items: Seq<Item>, sorted: Seq<Item>) -> bool {
    exists|perm: Seq<int>| stable_sort_witness(items, sorted, perm)
}

/// Inserting `x` (from index `i` of `items`) at `p` keeps a stable sort of
/// the first `i` items a stable sort, now of the first `i + 1`.
proof fn lemma_insert_keeps_stable(
    items: Seq<Item>,
    sorted: Seq<Item>,
    perm: Seq<int>,
    i: int,
    p: int,
)
    requires
        0 <= i < items.len(),
        stable_sort_witness(items.subrange(0, i), sorted, perm),
        0 <= p <= sorted.len(),
        forall|k: int| 0 <= k < p ==> #[trigger] sorted[k].item_order <= items[i].item_order,
        p < sorted.len() ==> sorted[p].item_order > items[i].item_order,
    ensures
        stable_sort_witness(
            items.subrange(0, i + 1),
            sorted.insert(p, items[i]),
            perm.insert(p, i),
        ),
{
    let pre = items.subrange(0, i);
    let post = items.subrange(0, i + 1);
    let s2 = sorted.insert(p, items[i]);
    let p2 = perm.insert(p, i);
    let n = sorted.len();
    assert(s2.len() == n + 1);
    assert(p2.len() == n + 1);
    assert forall|k: int| 0 <= k < n + 1 implies 0 <= #[trigger] p2[k] < n + 1 by {
        if k < p {
            assert(p2[k] == perm[k]);
        } else if k > p {
            assert(p2[k] == perm[k - 1]);
        }
    }
    assert forall|a: int, b: int| 0 <= a < b < n + 1 implies #[trigger] p2[a] != #[trigger] p2[b] by {
        if a < p {
            assert(p2[a] == perm[a]);
        } else if a > p {
            assert(p2[a] == perm[a - 1]);
        }
        if b < p {
            assert(p2[b] == perm[b]);
        } else if b > p {
            assert(p2[b] == perm[b - 1]);
        }
    }
    assert forall|k: int| 0 <= k < s2.len() implies #[trigger] s2[k] == post[p2[k]] by {
        if k < p {
            assert(s2[k] == sorted[k]);
            assert(p2[k] == perm[k]);
            assert(sorted[k] == pre[perm[k]]);
        } else if k > p {
            assert(s2[k] == sorted[k - 1]);
            assert(p2[k] == perm[k - 1]);
            assert(sorted[k - 1] == pre[perm[k - 1]]);
        }
    }
    assert forall|k: int| p < k < n + 1 implies #[trigger] s2[k].item_order > items[i].item_order by {
        assert(s2[k] == sorted[k - 1]);
        if k - 1 > p {
            assert(sorted[p].item_order <= sorted[k - 1].item_order);
        }
    }
    assert forall|a: int, b: int| 0 <= a < b < s2.len() implies
        #[trigger] s2[a].item_order <= #[trigger] s2[b].item_order by {
        if a < p && b < p {
        } else if a < p && b == p {
        } else if a < p && b > p {
            assert(s2[b] == sorted[b - 1]);
        } else if a == p {
        } else {
            assert(s2[a] == sorted[a - 1]);
            assert(s2[b] == sorted[b - 1]);
        }
    }
    assert forall|a: int, b: int|
        0 <= a < b < s2.len() && s2[a].item_order == s2[b].item_order implies
        #[trigger] p2[a] < #[trigger] p2[b] by {
        if a < p {
            assert(p2[a] == perm[a]);
        } else if a > p {
            assert(p2[a] == perm[a - 1]);
        }
        if b < p {
            assert(p2[b] == perm[b]);
        } else if b > p {
            assert(p2[b] == perm[b - 1]);
        }
        if a > p {
            assert(s2[a] == sorted[a - 1]);
            assert(s2[b] == sorted[b - 1]);
        } else if a < p && b > p {
            assert(s2[a] == sorted[a]);
            assert(s2[b] == sorted[b - 1]);
        } else if a < p && b < p {
            assert(s2[a] == sorted[a]);
            assert(s2[b] == sorted[b]);
        }
    }
}

/// A copy of `items` ordered by `item_order`, ascending; items of equal
/// order stay in the order in which they came.
pub fn sort_by_item_order(items: &[Item]) -> (res: Vec<Item>)
    ensures
        is_stable_sort(items@, res@),
{
    let mut res: Vec<Item> = Vec::new();
    let ghost mut perm: Seq<int> = Seq::empty();
    let n = items.len();
    let mut i: usize = 0;
    assert(stable_sort_witness(items@.subrange(0, 0), res@, perm));
    while i < n
        invariant
            n == items@.len(),
            i <= n,
            stable_sort_witness(items@.subrange(0, i as int), res@, perm),
        decreases n - i,
    {
        let x = items[i].clone();
        let mut j: usize = 0;
        while j < res.len() && res[j].item_order <= x.item_order
            invariant
                j <= res.len(),
                forall|k: int| 0 <= k < j ==> #[trigger] res@[k].item_order <= x.item_order,
            decreases res.len() - j,
        {
            j = j + 1;
        }
        proof {
            lemma_insert_keeps_stable(items@, res@, perm, i as int, j as int);
            perm = perm.insert(j as int, i as int);
        }
        res.insert(j, x);
        i = i + 1;
    }
    assert(items@.subrange(0, n as int) =~= items@);
    res
}

/// A permutation of `0..n` takes every value of `0..n`.
pub(crate) proof fn lemma_permutation_onto(perm: Seq<int>, n: nat, v: int)
    requires
        is_permutation(perm, n),
        0 <= v < n,
    ensures
        exists|k: int| 0 <= k < n && perm[k] == v,
{
    let x = set_int_range(0, n as int);
    let f = |k: int| perm[k];
    lemma_int_range(0, n as int);
    let y = x.map(f);
    assert(vstd::relations::injective_on(f, x)) by {
        assert forall|a: int, b: int| x.contains(a) && x.contains(b) && #[trigger] f(a) == #[trigger] f(b)
            implies a == b by {
            if a < b {
                assert(perm[a] != perm[b]);
            } else if b < a {
                assert(perm[b] != perm[a]);
            }
        }
    }
    lemma_map_size(x, y, f);
    assert(y.subset_of(x)) by {
        assert forall|w: int| y.contains(w) implies x.contains(w) by {
            let k = choose|k: int| x.contains(k) && f(k) == w;
            assert(0 <= perm[k] < n);
        }
    }
    lemma_subset_equality(y, x);
    assert(x.contains(v));
    assert(y.contains(v));
    let k = choose|k: int| x.contains(k) && f(k) == v;
    assert(0 <= k < n && perm[k] == v);
}

/// Taking the last item out of a stable sort leaves a stable sort of the
/// others.
pub(crate) proof fn lemma_remove_last(items: Seq<Item>, sorted: Seq<Item>, perm: Seq<int>, pos: int)
    requires
        items.len() > 0,
        stable_sort_witness(items, sorted, perm),
        0 <= pos < sorted.len(),
        perm[pos] == items.len() - 1,
    ensures
        stable_sort_witness(items.drop_last(), sorted.remove(pos), perm.remove(pos)),
{
    let n = items.len();
    let s2 = sorted.remove(pos);
    let p2 = perm.remove(pos);
    assert forall|k: int| 0 <= k < n - 1 implies #[trigger] p2[k] == (if k < pos { perm[k] } else { perm[k + 1] }) by {}
    assert forall|k: int| 0 <= k < n - 1 implies #[trigger] s2[k] == (if k < pos { sorted[k] } else { sorted[k + 1] }) by {}
    assert forall|k: int| 0 <= k < n - 1 implies 0 <= #[trigger] p2[k] < n - 1 by {
        let j = if k < pos { k } else { k + 1 };
        assert(p2[k] == perm[j]);
        if j < pos {
            assert(perm[j] != perm[pos]);
        } else {
            assert(perm[pos] != perm[j]);
        }
    }
    assert forall|a: int, b: int| 0 <= a < b < n - 1 implies #[trigger] p2[a] != #[trigger] p2[b] by {
        let ja = if a < pos { a } else { a + 1 };
        let jb = if b < pos { b } else { b + 1 };
        assert(p2[a] == perm[ja]);
        assert(p2[b] == perm[jb]);
        assert(perm[ja] != perm[jb]);
    }
    assert forall|k: int| 0 <= k < s2.len() implies #[trigger] s2[k] == items.drop_last()[p2[k]] by {
        let j = if k < pos { k } else { k + 1 };
        assert(s2[k] == sorted[j]);
        assert(p2[k] == perm[j]);
        assert(sorted[j] == items[perm[j]]);
    }
    assert forall|a: int, b: int| 0 <= a < b < s2.len() implies
        #[trigger] s2[a].item_order <= #[trigger] s2[b].item_order by {
        let ja = if a < pos { a } else { a + 1 };
        let jb = if b < pos { b } else { b + 1 };
        assert(s2[a] == sorted[ja]);
        assert(s2[b] == sorted[jb]);
    }
    assert forall|a: int, b: int|
        0 <= a < b < s2.len() && s2[a].item_order == s2[b].item_order implies
        #[trigger] p2[a] < #[trigger] p2[b] by {
        let ja = if a < pos { a } else { a + 1 };
        let jb = if b < pos { b } else { b + 1 };
        assert(s2[a] == sorted[ja]);
        assert(s2[b] == sorted[jb]);
        assert(p2[a] == perm[ja]);
        assert(p2[b] == perm[jb]);
    }
}

/// In a stable sort, the last item comes after every item of no greater
/// order and before every item of greater order.
pub(crate) proof fn lemma_last_position(items: Seq<Item>, sorted: Seq<Item>, perm: Seq<int>, pos: int)
    requires
        items.len() > 0,
        stable_sort_witness(items, sorted, perm),
        0 <= pos < sorted.len(),
        perm[pos] == items.len() - 1,
    ensures
        sorted[pos] == items.last(),
        forall|k: int| 0 <= k < pos ==> #[trigger] sorted[k].item_order <= items.last().item_order,
        forall|k: int| pos < k < sorted.len() ==> #[trigger] sorted[k].item_order > items.last().item_order,
{
    assert(sorted[pos] == items[perm[pos]]);
    assert forall|k: int| 0 <= k < pos implies #[trigger] sorted[k].item_order <= items.last().item_order by {}
    assert forall|k: int| pos < k < sorted.len() implies #[trigger] sorted[k].item_order > items.last().item_order by {
        assert(sorted[pos].item_order <= sorted[k].item_order);
        if sorted[pos].item_order == sorted[k].item_order {
            assert(perm[pos] < perm[k]);
            assert(perm[k] < items.len());
        }
    }
}

/// A list has exactly one stable sort by `item_order`: two stable sorts of
/// the same list are equal.
pub proof fn law_stable_sort_is_unique(items: Seq<Item>, s1: Seq<Item>, s2: Seq<Item>)
    requires
        is_stable_sort(items, s1),
        is_stable_sort(items, s2),
    ensures
        s1 == s2,
    decreases items.len(),
{
    let p1 = choose|p: Seq<int>| stable_sort_witness(items, s1, p);
    let p2 = choose|p: Seq<int>| stable_sort_witness(items, s2, p);
    let n = items.len();
    if n == 0 {
        assert(s1 =~= s2);
    } else {
        lemma_permutation_onto(p1, n, n - 1);
        lemma_permutation_onto(p2, n, n - 1);
        let pos1 = choose|k: int| 0 <= k < n && p1[k] == n - 1;
        let pos2 = choose|k: int| 0 <= k < n && p2[k] == n - 1;
        lemma_remove_last(items, s1, p1, pos1);
        lemma_remove_last(items, s2, p2, pos2);
        law_stable_sort_is_unique(items.drop_last(), s1.remove(pos1), s2.remove(pos2));
        lemma_last_position(items, s1, p1, pos1);
        lemma_last_position(items, s2, p2, pos2);
        let r = s1.remove(pos1);
        let x = items.last();
        if pos1 < pos2 {
            assert(r[pos1] == s1[pos1 + 1]);
            assert(r[pos1] == s2.remove(pos2)[pos1]);
            assert(s2.remove(pos2)[pos1] == s2[pos1]);
            assert(false);
        } else if pos2 < pos1 {
            assert(s2.remove(pos2)[pos2] == s2[pos2 + 1]);
            assert(r[pos2] == s1[pos2]);
            assert(false);
        }
        assert(s1 =~= r.insert(pos1, x));
        assert(s2 =~= s2.remove(pos2).insert(pos2, x));
    }
}

} // verus!
