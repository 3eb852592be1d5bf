//! The shape of the tree: which node covers which range of indices, and where
//! the nodes lie in the store. Nodes are numbered from 1, the root; the
//! children of node `p` are `2 * p` and `2 * p + 1`.

use vstd::prelude::*;
use vstd::arithmetic::power2::{lemma2_to64, lemma_pow2_pos, lemma_pow2_unfold, pow2};

verus! {

/// The least `c` with `n <= 2^c`.
pub open spec fn ceil_log2(n: int) -> nat
    decreases n,
{
    if n <= 1 {
        0
    } else {
        1 + ceil_log2((n + 1) / 2)
    }
}

/// The number of slots that the nodes of a tree over `n` items are laid out
/// in: a complete binary tree with `2^ceil_log2(n)` leaves, or none for no
/// item.
pub open spec fn store_len(n: int) -> int {
    if n <= 0 {
        0
    } else {
        pow2(ceil_log2(n) + 1) - 1
    }
}

/// Where a range `[s, t]` is split: the left part `[s, m]` gets the extra
/// index when the count is odd.
pub open spec fn midpoint(s: int, t: int) -> int {
    s + (t - s) / 2
}

/// The number of steps from node `p` up to the root, which is node 1.
spec fn depth(p: int) -> nat
    decreases p,
{
    if p <= 1 {
        0
    } else {
        1 + depth(p / 2)
    }
}

/// The inclusive range of indices that node `p` covers in a tree over `n`
/// items, or `None` where the tree has no node `p`. The root covers
/// `[0, n - 1]`; a node that covers more than one index has the children
/// `2 * p` and `2 * p + 1`, which cover the two parts of its range.
pub open spec fn span(n: int, p: int) -> Option<(int, int)>
    decreases p,
{
    if n <= 0 || p < 1 {
        None
    } else if p == 1 {
        Some((0, n - 1))
    } else {
        match span(n, p / 2) {
            Some((s, t)) => if s >= t {
                None
            } else if p % 2 == 0 {
                Some((s, midpoint(s, t)))
            } else {
                Some((midpoint(s, t) + 1, t))
            },
            None => None,
        }
    }
}

/// Whether node `q` is node `p` or lies below it.
pub open spec fn in_subtree(q: int, p: int) -> bool
    decreases q,
{
    q == p || (1 <= p < q && in_subtree(q / 2, p))
}

/// The leaf that covers index `i`, found from node `p`, which covers `[s, t]`.
pub open spec fn leaf_below(s: int, t: int, p: int, i: int) -> int
    decreases t - s,
{
    if s >= t {
        p
    } else if i <= midpoint(s, t) {
        leaf_below(s, midpoint(s, t), 2 * p, i)
    } else {
        leaf_below(midpoint(s, t) + 1, t, 2 * p + 1, i)
    }
}

/// The leaf that covers index `i` in a tree over `n` items.
pub open spec fn leaf(n: int, i: int) -> int {
    leaf_below(0, n - 1, 1, i)
}

/// `2^ceil_log2(n)` is the least power of two that is at least `n`.
pub proof fn lemma_ceil_log2(n: int)
    requires
        n >= 1,
    ensures
        n <= pow2(ceil_log2(n)),
        n > 1 ==> pow2((ceil_log2(n) - 1) as nat) < n,
    decreases n,
{
    if n <= 1 {
        lemma2_to64();
    } else {
        let h: int = (n + 1) / 2;
        lemma_ceil_log2(h);
        lemma_pow2_unfold(ceil_log2(n));
        if h > 1 {
            lemma_pow2_unfold(ceil_log2(h));
        } else {
            lemma2_to64();
        }
    }
}

/// The store of a tree over `n >= 1` items has at least `2 * n - 1` and fewer
/// than `4 * n` slots.
pub proof fn lemma_store_len_bounds(n: int)
    requires
        n >= 1,
    ensures
        2 * n - 1 <= store_len(n) < 4 * n,
{
    lemma_ceil_log2(n);
    lemma_pow2_unfold(ceil_log2(n) + 1);
    if n > 1 {
        lemma_pow2_unfold(ceil_log2(n));
    } else {
        lemma2_to64();
    }
}

/// A node of the tree covers a range within `0..n` that is not empty.
pub proof fn lemma_span_within(n: int, p: int)
    ensures
        match span(n, p) {
            Some((s, t)) => 0 <= s <= t < n && p >= 1,
            None => true,
        },
    decreases p,
{
    if n > 0 && p > 1 {
        lemma_span_within(n, p / 2);
    }
}

/// The children of a node that covers more than one index cover the two
/// parts of its range.
pub proof fn lemma_span_children(n: int, p: int)
    ensures
        match span(n, p) {
            Some((s, t)) => s < t ==> span(n, 2 * p) == Some((s, midpoint(s, t))) && span(
                n,
                2 * p + 1,
            ) == Some((midpoint(s, t) + 1, t)),
            None => true,
        },
{
    lemma_span_within(n, p);
}

/// A node at depth `d` covers at most `2^(c - d)` indices, where
/// `c = ceil_log2(n)`, and the nodes at its depth up to it fill at most that
/// share of the `2^(c + 1)` slots.
proof fn lemma_span_width(n: int, p: int)
    ensures
        match span(n, p) {
            Some((s, t)) => {
                &&& depth(p) <= ceil_log2(n)
                &&& t - s + 1 <= pow2((ceil_log2(n) - depth(p)) as nat)
                &&& (p + 1) * pow2((ceil_log2(n) - depth(p)) as nat) <= pow2(ceil_log2(n) + 1)
            },
            None => true,
        },
    decreases p,
{
    let c: nat = ceil_log2(n);
    if n > 0 && p >= 1 {
        if p == 1 {
            lemma_ceil_log2(n);
            lemma_pow2_unfold(c + 1);
        } else {
            let q: int = p / 2;
            lemma_span_width(n, q);
            lemma_span_within(n, q);
            match span(n, q) {
                Some((s, t)) => {
                    if s < t {
                        let w: nat = pow2((c - depth(q)) as nat);
                        if c - depth(q) == 0 {
                            lemma2_to64();
                        }
                        lemma_pow2_unfold((c - depth(q)) as nat);
                        let h: nat = pow2((c - depth(q) - 1) as nat);
                        assert((p + 1) * h <= (q + 1) * w) by (nonlinear_arith)
                            requires
                                p + 1 <= 2 * (q + 1),
                                w == 2 * h,
                                h >= 0,
                        ;
                    }
                },
                None => {},
            }
        }
    }
}

/// Every node of the tree has a slot in the store, and so have the two
/// children of a node that covers more than one index.
pub proof fn lemma_span_fits(n: int, p: int)
    ensures
        match span(n, p) {
            Some((s, t)) => {
                &&& 1 <= p <= store_len(n)
                &&& s < t ==> 2 * p + 1 <= store_len(n)
            },
            None => true,
        },
{
    lemma_span_width(n, p);
    lemma_span_within(n, p);
    match span(n, p) {
        Some((s, t)) => {
            let w: nat = pow2((ceil_log2(n) - depth(p)) as nat);
            let l: nat = pow2(ceil_log2(n) + 1);
            lemma_pow2_pos((ceil_log2(n) - depth(p)) as nat);
            assert(p + 1 <= l) by (nonlinear_arith)
                requires
                    (p + 1) * w <= l,
                    w >= 1,
                    p >= 1,
            ;
            if s < t {
                assert(2 * (p + 1) <= l) by (nonlinear_arith)
                    requires
                        (p + 1) * w <= l,
                        w >= 2,
                        p >= 1,
                ;
            }
        },
        None => {},
    }
}

/// Every node lies in the subtree of the root.
pub proof fn lemma_subtree_root(q: int)
    requires
        q >= 1,
    ensures
        in_subtree(q, 1),
    decreases q,
{
    if q > 1 {
        lemma_subtree_root(q / 2);
    }
}

/// The subtree of node `p` is `p` itself and the subtrees of its two
/// children, and these three parts have no node in common.
pub proof fn lemma_subtree_split(q: int, p: int)
    requires
        p >= 1,
    ensures
        in_subtree(q, p) <==> q == p || in_subtree(q, 2 * p) || in_subtree(q, 2 * p + 1),
        !(in_subtree(q, 2 * p) && in_subtree(q, 2 * p + 1)),
        in_subtree(q, 2 * p) || in_subtree(q, 2 * p + 1) ==> q > p,
    decreases q,
{
    if q > p {
        lemma_subtree_split(q / 2, p);
    }
}

/// A node below `p` covers a part of the range that `p` covers, and `p` then
/// covers more than one index.
pub proof fn lemma_subtree_span(n: int, q: int, p: int)
    requires
        in_subtree(q, p),
    ensures
        match span(n, q) {
            Some((a, b)) => match span(n, p) {
                Some((s, t)) => s <= a <= b <= t && (q != p ==> s < t),
                None => false,
            },
            None => true,
        },
    decreases q,
{
    if q != p {
        lemma_subtree_span(n, q / 2, p);
        lemma_span_within(n, q / 2);
        lemma_span_within(n, q);
    } else {
        lemma_span_within(n, q);
    }
}

/// Below a node that covers `[s, t]`, each index of that range has its leaf.
pub proof fn lemma_leaf_below(n: int, s: int, t: int, p: int, i: int)
    requires
        span(n, p) == Some((s, t)),
        s <= i <= t,
    ensures
        span(n, leaf_below(s, t, p, i)) == Some((i, i)),
        in_subtree(leaf_below(s, t, p, i), p),
    decreases t - s,
{
    lemma_span_within(n, p);
    if s < t {
        let m: int = midpoint(s, t);
        lemma_span_children(n, p);
        if i <= m {
            lemma_leaf_below(n, s, m, 2 * p, i);
        } else {
            lemma_leaf_below(n, m + 1, t, 2 * p + 1, i);
        }
        lemma_subtree_split(leaf_below(s, t, p, i), p);
    }
}

/// Each index of a tree over `n` items has its leaf, which has a slot in the
/// store.
pub proof fn lemma_leaf(n: int, i: int)
    requires
        0 <= i < n,
    ensures
        span(n, leaf(n, i)) == Some((i, i)),
        1 <= leaf(n, i) <= store_len(n),
{
    lemma_leaf_below(n, 0, n - 1, 1, i);
    lemma_span_fits(n, leaf(n, i));
}

} // verus!
