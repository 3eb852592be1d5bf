//! What the store of a tree holds for each node, and how that is kept while
//! the store is filled or changed one subtree at a time.

use vstd::prelude::*;
use crate::operation::{fold, lemma_fold_concat, lemma_fold_one, lemma_fold_same, Monoid};
use crate::shape::{
    in_subtree, leaf, lemma_leaf, lemma_span_children, lemma_span_fits, lemma_span_within,
    lemma_subtree_root, lemma_subtree_span, lemma_subtree_split, midpoint, span, store_len,
};

verus! {

/// The value that belongs to node `p` of a tree over `items`: the fold of the
/// items that the node covers, and the neutral element where the tree has no
/// node `p`.
pub open spec fn node_value<T, M: Monoid<T>>(m: M, items: Seq<T>, p: int) -> T {
    match span(items.len() as int, p) {
        Some((s, t)) => fold(m, items.subrange(s, t + 1)),
        None => m.spec_zero(),
    }
}

/// The store of a tree over `items`: the value of node `p` at offset `p - 1`.
pub open spec fn layout<T, M: Monoid<T>>(m: M, items: Seq<T>) -> Seq<T> {
    Seq::new(store_len(items.len() as int) as nat, |k: int| node_value(m, items, k + 1))
}

/// `items` with `val` combined into each item of `[first, past)`, from the
/// right.
pub open spec fn folded_in<T, M: Monoid<T>>(
    m: M,
    items: Seq<T>,
    first: int,
    past: int,
    val: T,
) -> Seq<T> {
    Seq::new(
        items.len(),
        |i: int|
            if first <= i < past {
                m.spec_combine(items[i], val)
            } else {
                items[i]
            },
    )
}

/// What `store` holds for node `p`.
pub open spec fn slot<T>(store: Seq<T>, p: int) -> T {
    store[p - 1]
}

/// Whether each node in the subtree of `p` has in `store` the value that
/// belongs to it in a tree over `items`.
pub(crate) open spec fn holds<T, M: Monoid<T>>(m: M, items: Seq<T>, store: Seq<T>, p: int) -> bool {
    forall|q: int|
        1 <= q <= store.len() && in_subtree(q, p) ==> #[trigger] slot(store, q) == node_value(
            m,
            items,
            q,
        )
}

/// Whether `store` has the neutral element for each node in the subtree of
/// `p`, as the store of a tree over no items has.
pub(crate) open spec fn blank<T, M: Monoid<T>>(m: M, store: Seq<T>, p: int) -> bool {
    holds(m, Seq::<T>::empty(), store, p)
}

/// Whether `after` differs from `before` in the subtree of `p` at most.
pub(crate) open spec fn same_outside<T>(before: Seq<T>, after: Seq<T>, p: int) -> bool {
    &&& after.len() == before.len()
    &&& forall|q: int|
        1 <= q <= before.len() && !in_subtree(q, p) ==> #[trigger] slot(after, q) == slot(
            before,
            q,
        )
}

/// The value of a leaf is the item that it covers.
pub proof fn lemma_node_value_leaf<T, M: Monoid<T>>(m: M, items: Seq<T>, p: int, i: int)
    requires
        m.valid(),
        span(items.len() as int, p) == Some((i, i)),
    ensures
        node_value(m, items, p) == items[i],
{
    lemma_span_within(items.len() as int, p);
    assert(items.subrange(i, i + 1) =~= seq![items[i]]);
    lemma_fold_one(m, items[i]);
}

/// The value of a node that covers more than one index is the combination of
/// the values of its left and right child, in this order.
pub proof fn lemma_node_value_split<T, M: Monoid<T>>(m: M, items: Seq<T>, p: int, s: int, t: int)
    requires
        m.valid(),
        span(items.len() as int, p) == Some((s, t)),
        s < t,
    ensures
        node_value(m, items, p) == m.spec_combine(
            node_value(m, items, 2 * p),
            node_value(m, items, 2 * p + 1),
        ),
{
    let n: int = items.len() as int;
    let mid: int = midpoint(s, t);
    lemma_span_within(n, p);
    lemma_span_children(n, p);
    assert(items.subrange(s, t + 1) =~= items.subrange(s, mid + 1) + items.subrange(
        mid + 1,
        t + 1,
    ));
    lemma_fold_concat(m, items.subrange(s, mid + 1), items.subrange(mid + 1, t + 1));
}

/// Two sequences that agree on the range that node `p` covers give the same
/// value to each node in the subtree of `p`.
pub proof fn lemma_node_value_agrees<T, M: Monoid<T>>(
    m: M,
    a: Seq<T>,
    b: Seq<T>,
    p: int,
    q: int,
)
    requires
        a.len() == b.len(),
        in_subtree(q, p),
        match span(a.len() as int, p) {
            Some((s, t)) => forall|i: int| s <= i <= t ==> a[i] == b[i],
            None => true,
        },
    ensures
        node_value(m, a, q) == node_value(m, b, q),
{
    let n: int = a.len() as int;
    lemma_subtree_span(n, q, p);
    lemma_span_within(n, q);
    match span(n, q) {
        Some((lo, hi)) => {
            assert(a.subrange(lo, hi + 1) =~= b.subrange(lo, hi + 1));
        },
        None => {},
    }
}

/// A store that holds the subtree of `p` holds the subtrees of its children.
pub(crate) proof fn lemma_holds_children<T, M: Monoid<T>>(m: M, items: Seq<T>, store: Seq<T>, p: int)
    requires
        p >= 1,
        holds(m, items, store, p),
    ensures
        holds(m, items, store, 2 * p),
        holds(m, items, store, 2 * p + 1),
{
    assert forall|q: int|
        1 <= q <= store.len() && (in_subtree(q, 2 * p) || in_subtree(q, 2 * p + 1)) implies
        #[trigger] slot(store, q) == node_value(m, items, q) by {
        lemma_subtree_split(q, p);
    }
}

/// A store that holds the subtrees of both children of `p`, and for `p` the
/// combination of what it has for the children, holds the subtree of `p`.
pub(crate) proof fn lemma_holds_parent<T, M: Monoid<T>>(
    m: M,
    items: Seq<T>,
    store: Seq<T>,
    p: int,
    s: int,
    t: int,
)
    requires
        m.valid(),
        store.len() == store_len(items.len() as int),
        span(items.len() as int, p) == Some((s, t)),
        s < t,
        holds(m, items, store, 2 * p),
        holds(m, items, store, 2 * p + 1),
        slot(store, p) == m.spec_combine(slot(store, 2 * p), slot(store, 2 * p + 1)),
    ensures
        holds(m, items, store, p),
{
    let n: int = items.len() as int;
    lemma_span_within(n, p);
    lemma_span_fits(n, p);
    lemma_node_value_split(m, items, p, s, t);
    assert forall|q: int| 1 <= q <= store.len() && in_subtree(q, p) implies
        #[trigger] slot(store, q) == node_value(m, items, q) by {
        lemma_subtree_split(q, p);
    }
}

/// A store that holds the subtree of `p` still does after a change that stays
/// within the subtree of the other child of the parent of `p`.
pub(crate) proof fn lemma_holds_kept<T, M: Monoid<T>>(
    m: M,
    items: Seq<T>,
    before: Seq<T>,
    after: Seq<T>,
    p: int,
    r: int,
)
    requires
        holds(m, items, before, p),
        same_outside(before, after, r),
        p >= 2,
        p / 2 == r / 2,
        p != r,
    ensures
        holds(m, items, after, p),
{
    assert forall|q: int| 1 <= q <= after.len() && in_subtree(q, p) implies
        #[trigger] slot(after, q) == node_value(m, items, q) by {
        lemma_subtree_split(q, p / 2);
    }
}

/// A store that holds the subtree of `p` for one sequence holds it for each
/// sequence that agrees with the first on the range that `p` covers.
pub(crate) proof fn lemma_holds_agrees<T, M: Monoid<T>>(
    m: M,
    a: Seq<T>,
    b: Seq<T>,
    store: Seq<T>,
    p: int,
)
    requires
        a.len() == b.len(),
        holds(m, a, store, p),
        match span(a.len() as int, p) {
            Some((s, t)) => forall|i: int| s <= i <= t ==> a[i] == b[i],
            None => true,
        },
    ensures
        holds(m, b, store, p),
{
    assert forall|q: int| 1 <= q <= store.len() && in_subtree(q, p) implies
        #[trigger] slot(store, q) == node_value(m, b, q) by {
        lemma_node_value_agrees(m, a, b, p, q);
    }
}

/// Once a store holds the subtrees of both children of `p`, setting the slot
/// of `p` to the combination of the slots of its children makes it hold the
/// subtree of `p`.
pub(crate) proof fn lemma_holds_set<T, M: Monoid<T>>(
    m: M,
    items: Seq<T>,
    before: Seq<T>,
    after: Seq<T>,
    p: int,
    s: int,
    t: int,
)
    requires
        m.valid(),
        before.len() == store_len(items.len() as int),
        span(items.len() as int, p) == Some((s, t)),
        s < t,
        holds(m, items, before, 2 * p),
        holds(m, items, before, 2 * p + 1),
        after == before.update(
            p - 1,
            m.spec_combine(slot(before, 2 * p), slot(before, 2 * p + 1)),
        ),
    ensures
        holds(m, items, after, p),
{
    let n: int = items.len() as int;
    lemma_span_within(n, p);
    lemma_span_fits(n, p);
    assert forall|q: int|
        1 <= q <= after.len() && (in_subtree(q, 2 * p) || in_subtree(q, 2 * p + 1)) implies
        #[trigger] slot(after, q) == node_value(m, items, q) by {
        lemma_subtree_split(q, p);
        assert(slot(after, q) == slot(before, q));
    }
    lemma_holds_parent(m, items, after, p, s, t);
}

/// Setting the slot of a leaf to the item that it covers makes the store
/// hold the subtree of that leaf, if it held that subtree before, for a
/// sequence of the same length or for none.
pub(crate) proof fn lemma_holds_leaf_set<T, M: Monoid<T>>(
    m: M,
    old_items: Seq<T>,
    items: Seq<T>,
    before: Seq<T>,
    after: Seq<T>,
    p: int,
    i: int,
)
    requires
        m.valid(),
        old_items.len() == 0 || old_items.len() == items.len(),
        span(items.len() as int, p) == Some((i, i)),
        1 <= p <= before.len(),
        holds(m, old_items, before, p),
        after == before.update(p - 1, items[i]),
    ensures
        holds(m, items, after, p),
{
    let n: int = items.len() as int;
    lemma_node_value_leaf(m, items, p, i);
    assert forall|q: int| 1 <= q <= after.len() && in_subtree(q, p) implies
        #[trigger] slot(after, q) == node_value(m, items, q) by {
        if q != p {
            lemma_subtree_span(n, q, p);
            if old_items.len() != 0 {
                lemma_subtree_span(old_items.len() as int, q, p);
            }
            assert(slot(after, q) == slot(before, q));
        }
    }
}

/// A change within the subtree of the left child of `p`, then one within the
/// subtree of its right child, then one of the slot of `p` stay within the
/// subtree of `p`.
pub(crate) proof fn lemma_same_outside_parent<T>(
    before: Seq<T>,
    left_done: Seq<T>,
    both_done: Seq<T>,
    after: Seq<T>,
    p: int,
    x: T,
)
    requires
        1 <= p <= before.len(),
        same_outside(before, left_done, 2 * p),
        same_outside(left_done, both_done, 2 * p + 1),
        after == both_done.update(p - 1, x),
    ensures
        same_outside(before, after, p),
{
    assert forall|q: int| 1 <= q <= before.len() && !in_subtree(q, p) implies
        #[trigger] slot(after, q) == slot(before, q) by {
        lemma_subtree_split(q, p);
        assert(slot(after, q) == slot(both_done, q));
        assert(slot(both_done, q) == slot(left_done, q));
        assert(slot(left_done, q) == slot(before, q));
    }
}

/// A store of the right length that holds the subtree of the root is the
/// layout of the items.
pub(crate) proof fn lemma_holds_root<T, M: Monoid<T>>(m: M, items: Seq<T>, store: Seq<T>)
    requires
        store.len() == store_len(items.len() as int),
        holds(m, items, store, 1),
    ensures
        store == layout(m, items),
{
    assert forall|k: int| 0 <= k < store.len() implies store[k] == node_value(m, items, k + 1) by {
        lemma_subtree_root(k + 1);
        assert(slot(store, k + 1) == node_value(m, items, k + 1));
    }
}

/// Two monoids with the same neutral element and the same combination lay
/// the items out alike.
pub proof fn lemma_layout_same<T, A: Monoid<T>, B: Monoid<T>>(a: A, b: B, items: Seq<T>)
    requires
        a.spec_zero() == b.spec_zero(),
        forall|x: T, y: T| #[trigger] a.spec_combine(x, y) == b.spec_combine(x, y),
    ensures
        layout(a, items) == layout(b, items),
{
    let n: int = items.len() as int;
    assert forall|p: int| #[trigger] node_value(a, items, p) == node_value(b, items, p) by {
        match span(n, p) {
            Some((s, t)) => {
                lemma_fold_same(a, b, items.subrange(s, t + 1));
            },
            None => {},
        }
    }
}

/// In the layout of the items, the leaf that covers an index has the item at
/// that index.
pub proof fn lemma_layout_leaves<T, M: Monoid<T>>(m: M, items: Seq<T>)
    requires
        m.valid(),
    ensures
        forall|i: int|
            0 <= i < items.len() ==> slot(layout(m, items), #[trigger] leaf(items.len() as int, i))
                == items[i],
{
    let n: int = items.len() as int;
    assert forall|i: int| 0 <= i < n implies slot(layout(m, items), #[trigger] leaf(n, i))
        == items[i] by {
        lemma_leaf(n, i);
        lemma_node_value_leaf(m, items, leaf(n, i), i);
    }
}

} // verus!
