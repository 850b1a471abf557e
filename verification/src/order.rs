//! Sorting of positions by what stands at them.

use vstd::prelude::*;
use vstd::relations::*;
use vstd::seq_lib::*;

verus! {

/// The positions below `n`, in order.
pub open spec fn positions(n: nat) -> Seq<usize> {
    Seq::new(n, |i: int| i as usize)
}

/// The positions below `n`, sorted by a total order.
pub open spec fn sorted_positions(n: nat, leq: spec_fn(usize, usize) -> bool) -> Seq<usize> {
    positions(n).sort_by(leq)
}

/// `order` lists every position below `n` once, in the given order.
pub open spec fn lists_in_order(
    order: Seq<usize>,
    n: nat,
    leq: spec_fn(usize, usize) -> bool,
) -> bool {
    &&& order.len() == n
    &&& forall|i: int| 0 <= i < n ==> #[trigger] order[i] < n
    &&& forall|i: int, j: int| 0 <= i < j < n ==> #[trigger] order[i] != #[trigger] order[j]
    &&& forall|i: int, j: int| 0 <= i < j < n ==> leq(#[trigger] order[i], #[trigger] order[j])
}

/// Sorting lists every position once and in order.
pub proof fn law_sorted_positions(n: nat, leq: spec_fn(usize, usize) -> bool)
    requires
        total_ordering(leq),
        n <= usize::MAX,
    ensures
        lists_in_order(sorted_positions(n, leq), n, leq),
{
    broadcast use group_to_multiset_ensures;

    let all = positions(n);
    let order = sorted_positions(n, leq);
    all.lemma_sort_by_ensures(leq);
    assert(all.no_duplicates());
    all.lemma_multiset_has_no_duplicates();
    assert(order.to_multiset().len() == all.to_multiset().len());
    assert(order.len() == n);
    order.lemma_multiset_has_no_duplicates_conv();
    assert forall|i: int| 0 <= i < n implies #[trigger] order[i] < n by {
        assert(order.contains(order[i]));
        assert(all.contains(order[i]));
    }
}

/// There is only one way to list every position once and in order.
pub proof fn law_sorted_positions_unique(
    order: Seq<usize>,
    n: nat,
    leq: spec_fn(usize, usize) -> bool,
)
    requires
        total_ordering(leq),
        n <= usize::MAX,
        lists_in_order(order, n, leq),
    ensures
        order == sorted_positions(n, leq),
{
    let sorted = sorted_positions(n, leq);
    law_sorted_positions(n, leq);
    lemma_same_members(order, n);
    lemma_same_members(sorted, n);
    assert(sorted_by(order, leq));
    assert(sorted_by(sorted, leq));
    lemma_sorted_unique(order, sorted, leq);
}

/// A list of `n` different positions below `n` holds all of them.
proof fn lemma_same_members(order: Seq<usize>, n: nat)
    requires
        n <= usize::MAX,
        order.len() == n,
        forall|i: int| 0 <= i < n ==> #[trigger] order[i] < n,
        forall|i: int, j: int| 0 <= i < j < n ==> #[trigger] order[i] != #[trigger] order[j],
    ensures
        order.to_multiset() == positions(n).to_multiset(),
    decreases n,
{
    broadcast use group_to_multiset_ensures;

    if n == 0 {
        assert(order =~= positions(n));
    } else {
        let top = (n - 1) as usize;
        // The largest position occurs: the others alone are too few.
        if !order.contains(top) {
            assert forall|i: int| 0 <= i < n implies #[trigger] order[i] < n - 1 by {
                assert(order.contains(order[i]));
            }
            lemma_at_most(order, (n - 1) as nat);
        }
        let k = order.index_of(top);
        let rest = order.remove(k);
        assert forall|i: int| 0 <= i < n - 1 implies #[trigger] rest[i] < n - 1 by {
            if i < k {
                assert(rest[i] == order[i]);
            } else {
                assert(rest[i] == order[i + 1]);
            }
        }
        assert forall|i: int, j: int| 0 <= i < j < n - 1 implies #[trigger] rest[i]
            != #[trigger] rest[j] by {
            assert(rest[i] == order[if i < k { i } else { i + 1 }]);
            assert(rest[j] == order[if j < k { j } else { j + 1 }]);
        }
        lemma_same_members(rest, (n - 1) as nat);
        assert(positions(n) =~= positions((n - 1) as nat).push(top));
        assert(order =~= rest.insert(k, top));
        to_multiset_insert(rest, k, top);
    }
}

/// A list of all positions below `n` holds each of them.
pub proof fn lemma_listed_somewhere(order: Seq<usize>, n: nat, p: usize)
    requires
        p < n <= usize::MAX,
        order.len() == n,
        forall|i: int| 0 <= i < n ==> #[trigger] order[i] < n,
        forall|i: int, j: int| 0 <= i < j < n ==> #[trigger] order[i] != #[trigger] order[j],
    ensures
        exists|i: int| 0 <= i < n && order[i] == p,
{
    broadcast use group_to_multiset_ensures;

    lemma_same_members(order, n);
    assert(positions(n)[p as int] == p);
    assert(positions(n).contains(p));
    assert(order.to_multiset().count(p) > 0);
    assert(order.contains(p));
}

/// There are at most `m` different positions below `m`.
proof fn lemma_at_most(order: Seq<usize>, m: nat)
    requires
        m <= usize::MAX,
        forall|i: int| 0 <= i < order.len() ==> #[trigger] order[i] < m,
        forall|i: int, j: int|
            0 <= i < j < order.len() ==> #[trigger] order[i] != #[trigger] order[j],
    ensures
        order.len() <= m,
    decreases m,
{
    if order.len() > 0 {
        assert(order[0] < m);
        let top = (m - 1) as usize;
        let k = if order.contains(top) {
            order.index_of(top)
        } else {
            0
        };
        let rest = order.remove(k);
        assert forall|i: int| 0 <= i < rest.len() implies #[trigger] rest[i] < m - 1 by {
            let j = if i < k {
                i
            } else {
                i + 1
            };
            assert(rest[i] == order[j]);
            assert(order.contains(order[j]));
        }
        assert forall|i: int, j: int| 0 <= i < j < rest.len() implies #[trigger] rest[i]
            != #[trigger] rest[j] by {
            assert(rest[i] == order[if i < k { i } else { i + 1 }]);
            assert(rest[j] == order[if j < k { j } else { j + 1 }]);
        }
        lemma_at_most(rest, (m - 1) as nat);
    }
}

/// Sorts the positions below `n` by insertion. `not_after` computes the order.
pub(crate) fn sort_positions<F: Fn(usize, usize) -> bool>(
    n: usize,
    not_after: F,
    Ghost(leq): Ghost<spec_fn(usize, usize) -> bool>,
) -> (order: Vec<usize>)
    requires
        total_ordering(leq),
        forall|i: usize, j: usize| i < n && j < n ==> #[trigger] call_requires(not_after, (i, j)),
        forall|i: usize, j: usize, r: bool|
            i < n && j < n && #[trigger] call_ensures(not_after, (i, j), r) ==> r == leq(i, j),
    ensures
        order@ == sorted_positions(n as nat, leq),
        lists_in_order(order@, n as nat, leq),
{
    let mut order: Vec<usize> = Vec::new();
    let mut k: usize = 0;
    while k < n
        invariant
            k <= n,
            total_ordering(leq),
            forall|i: usize, j: usize|
                i < n && j < n ==> #[trigger] call_requires(not_after, (i, j)),
            forall|i: usize, j: usize, r: bool|
                i < n && j < n && #[trigger] call_ensures(not_after, (i, j), r) ==> r == leq(i, j),
            lists_in_order(order@, k as nat, leq),
        decreases n - k,
    {
        let mut p: usize = k;
        while p > 0 && !not_after(order[p - 1], k)
            invariant
                p <= k < n,
                total_ordering(leq),
                forall|i: usize, j: usize|
                    i < n && j < n ==> #[trigger] call_requires(not_after, (i, j)),
                forall|i: usize, j: usize, r: bool|
                    i < n && j < n && #[trigger] call_ensures(not_after, (i, j), r) ==> r == leq(
                        i,
                        j,
                    ),
                lists_in_order(order@, k as nat, leq),
                forall|i: int| p <= i < k ==> !leq(#[trigger] order@[i], k),
            decreases p,
        {
            p -= 1;
        }
        let ghost before = order@;
        order.insert(p, k);
        proof {
            lemma_insert_in_order(before, k, p as int, leq);
        }
        k += 1;
    }
    proof {
        law_sorted_positions_unique(order@, n as nat, leq);
    }
    order
}

proof fn lemma_insert_in_order(
    before: Seq<usize>,
    k: usize,
    p: int,
    leq: spec_fn(usize, usize) -> bool,
)
    requires
        total_ordering(leq),
        lists_in_order(before, k as nat, leq),
        k < usize::MAX,
        0 <= p <= k,
        p > 0 ==> leq(before[p - 1], k),
        forall|i: int| p <= i < k ==> !leq(#[trigger] before[i], k),
    ensures
        lists_in_order(before.insert(p, k), (k + 1) as nat, leq),
{
    let after = before.insert(p, k);
    assert forall|i: int, j: int| 0 <= i < j < k + 1 implies leq(#[trigger] after[i], #[trigger] after[j]) by {
        if j == p {
            if i < p - 1 {
                assert(leq(before[i], before[p - 1]));
            }
            assert(after[i] == before[i]);
        } else if i == p {
            assert(after[j] == before[j - 1]);
            assert(!leq(before[j - 1], k));
            assert(leq(k, before[j - 1]) || leq(before[j - 1], k));
        } else {
            assert(after[i] == before[if i < p { i } else { i - 1 }]);
            assert(after[j] == before[if j < p { j } else { j - 1 }]);
        }
    }
    assert forall|i: int| 0 <= i < k + 1 implies #[trigger] after[i] < k + 1 by {
        if i != p {
            assert(after[i] == before[if i < p { i } else { i - 1 }]);
        }
    }
    assert forall|i: int, j: int| 0 <= i < j < k + 1 implies #[trigger] after[i]
        != #[trigger] after[j] by {
        if i != p {
            assert(after[i] == before[if i < p { i } else { i - 1 }]);
        }
        if j != p {
            assert(after[j] == before[if j < p { j } else { j - 1 }]);
        }
    }
}

} // verus!
