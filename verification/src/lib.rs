//! A segment tree over any monoid. Beside the items it keeps the fold of each
//! range that a node of a balanced binary tree over the indices covers, so
//! that the fold of any range of items is combined from a few nodes. A value
//! can be combined into each item of a range, and the nodes above follow.

pub mod bound;
mod integers;
pub mod layout;
mod modular;
pub mod operation;
pub mod shape;

use vstd::prelude::*;
use vstd::arithmetic::power2::{
    lemma2_to64, lemma_pow2_strictly_increases, lemma_pow2_unfold, pow2,
};
use crate::bound::{lemma_nothing_in_empty, normalize, spec_normalize, Bound};
use crate::layout::{
    blank, folded_in, holds, layout, lemma_holds_agrees, lemma_holds_children, lemma_holds_kept,
    lemma_holds_leaf_set, lemma_holds_root, lemma_holds_set, lemma_layout_leaves,
    lemma_layout_same, lemma_node_value_leaf, lemma_same_outside_parent, node_value,
    same_outside, slot,
};
use crate::operation::{fold, lemma_fold_concat, lemma_fold_same, Monoid};
use crate::shape::{
    ceil_log2, leaf, lemma_ceil_log2, lemma_span_children, lemma_span_fits, lemma_span_within,
    lemma_store_len_bounds, span, store_len,
};

verus! {

/// Whether a clone of a `T` is always the value that was cloned.
pub open spec fn exact_clone<T: Clone>() -> bool {
    forall|a: T, b: T| #[trigger] cloned(a, b) ==> a == b
}

/// A segment tree: a sequence of items, kept together with the fold of each
/// range that a node of a balanced binary tree over the indices covers.
pub struct SegTree<T, M> {
    store: Vec<T>,
    len: usize,
    monoid: M,
}

impl<T, M> View for SegTree<T, M> {
    type V = Seq<T>;

    /// The items, which the leaves hold.
    closed spec fn view(&self) -> Seq<T> {
        Seq::new(self.len as nat, |i: int| slot(self.store@, leaf(self.len as int, i)))
    }
}

impl<T: Clone, M: Monoid<T>> SegTree<T, M> {
    /// The monoid that the tree folds with.
    pub closed spec fn spec_monoid(&self) -> M {
        self.monoid
    }

    /// The slots of the tree's nodes: node `p` at offset `p - 1`.
    pub closed spec fn spec_store(&self) -> Seq<T> {
        self.store@
    }

    /// Whether the tree is well formed: its monoid is valid, clones of its
    /// items are exact, and its store is the layout of its items.
    pub open spec fn wf(&self) -> bool {
        &&& self.spec_monoid().valid()
        &&& exact_clone::<T>()
        &&& self.spec_store() == layout(self.spec_monoid(), self@)
    }

    /// What a query for the range between `start` and `end` gives: the
    /// left-to-right fold of the items in the range, or `None` where the
    /// range is empty or reaches beyond the items.
    pub open spec fn spec_query(&self, start: Bound, end: Bound) -> Option<T> {
        match spec_normalize(start, end, self@.len()) {
            Some((first, past)) => Some(fold(self.spec_monoid(), self@.subrange(first, past))),
            None => None,
        }
    }

    /// What an update of the range between `start` and `end` with `val`
    /// leaves as items: `val` combined into each item of the range, or the
    /// items as they were where the range is empty or reaches beyond them.
    pub open spec fn spec_update(&self, start: Bound, end: Bound, val: T) -> Seq<T> {
        match spec_normalize(start, end, self@.len()) {
            Some((first, past)) => folded_in(self.spec_monoid(), self@, first, past, val),
            None => self@,
        }
    }

    /// A tree without items answers no query and takes no update.
    pub proof fn lemma_empty(&self, start: Bound, end: Bound, val: T)
        requires
            self@.len() == 0,
        ensures
            self.spec_query(start, end) is None,
            self.spec_update(start, end, val) == self@,
    {
        lemma_nothing_in_empty(start, end);
    }

    /// Two trees over the same items, whose monoids have the same neutral
    /// element and the same combination, answer every query alike, take every
    /// update alike and, where both are well formed, have the same store.
    pub proof fn lemma_same_monoid<N: Monoid<T>>(
        &self,
        other: &SegTree<T, N>,
        start: Bound,
        end: Bound,
        val: T,
    )
        requires
            self@ == other@,
            self.spec_monoid().spec_zero() == other.spec_monoid().spec_zero(),
            forall|x: T, y: T| #[trigger]
                self.spec_monoid().spec_combine(x, y) == other.spec_monoid().spec_combine(x, y),
        ensures
            self.spec_query(start, end) == other.spec_query(start, end),
            self.spec_update(start, end, val) == other.spec_update(start, end, val),
            self.wf() && other.wf() ==> self.spec_store() == other.spec_store(),
    {
        let a = self.spec_monoid();
        let b = other.spec_monoid();
        match spec_normalize(start, end, self@.len()) {
            Some((first, past)) => {
                lemma_fold_same(a, b, self@.subrange(first, past));
                assert(folded_in(a, self@, first, past, val) =~= folded_in(
                    b,
                    self@,
                    first,
                    past,
                    val,
                ));
            },
            None => {},
        }
        lemma_layout_same(a, b, self@);
    }

    /// Builds the tree over the items `v`, to be folded with `monoid`. The
    /// number of slots in the store must fit a `usize`, as it does for any
    /// `v` of up to `usize::MAX / 4` items.
    pub fn new(v: Vec<T>, monoid: M) -> (tree: Self)
        requires
            monoid.valid(),
            exact_clone::<T>(),
            v@.len() <= usize::MAX / 4 || store_len(v@.len() as int) <= usize::MAX,
        ensures
            tree.wf(),
            tree@ == v@,
            tree.spec_monoid() == monoid,
            tree.spec_store() == layout(monoid, v@),
    {
        if v.is_empty() {
            let tree = SegTree { store: Vec::new(), len: 0, monoid };
            assert(tree@ =~= v@);
            assert(tree.store@ =~= layout(monoid, v@));
            return tree;
        }
        proof {
            lemma_store_len_bounds(v@.len() as int);
        }
        let len: usize = Self::store_size(v.len());
        let unit = monoid.zero();
        let mut store = vec![unit; len];
        proof {
            lemma_span_within(v@.len() as int, 1);
        }
        Self::build(&v, &mut store, &monoid, 0, v.len() - 1, 1);
        let tree = SegTree { store, len: v.len(), monoid };
        proof {
            lemma_holds_root(monoid, v@, tree.store@);
            lemma_layout_leaves(monoid, v@);
            assert(tree@ =~= v@);
        }
        tree
    }

    /// The slots of the tree's nodes, the root first.
    pub fn store(&self) -> (store: &Vec<T>)
        ensures
            store@ == self.spec_store(),
    {
        &self.store
    }

    /// The left-to-right fold of the items in the range between `start` and
    /// `end`, or `None` where the range is empty or reaches beyond the items.
    pub fn query(&self, start: Bound, end: Bound) -> (sum: Option<T>)
        requires
            self.wf(),
        ensures
            sum == self.spec_query(start, end),
    {
        match normalize(start, end, self.len) {
            Some((first, past)) => {
                proof {
                    lemma_span_within(self.len as int, 1);
                }
                Some(self.get_range_sum(0, self.len - 1, first, past, 1))
            },
            None => None,
        }
    }

    /// Combines `val` into each item of the range between `start` and `end`,
    /// from the right. Where the range is empty or reaches beyond the items,
    /// nothing changes.
    pub fn update(&mut self, start: Bound, end: Bound, val: T)
        requires
            old(self).wf(),
        ensures
            final(self).wf(),
            final(self)@ == old(self).spec_update(start, end, val),
            final(self).spec_monoid() == old(self).spec_monoid(),
            spec_normalize(start, end, old(self)@.len()) is None ==> *final(self) == *old(self),
    {
        match normalize(start, end, self.len) {
            Some((first, past)) => {
                let ghost items = self@;
                let ghost after = folded_in(self.monoid, items, first as int, past as int, val);
                proof {
                    lemma_span_within(self.len as int, 1);
                    lemma_span_fits(self.len as int, 1);
                }
                self.update_impl(0, self.len - 1, first, past, 1, &val, Ghost(items));
                proof {
                    lemma_holds_root(self.monoid, after, self.store@);
                    lemma_layout_leaves(self.monoid, after);
                    assert(self@ =~= after);
                }
            },
            None => {},
        }
    }

    /// The number of slots for a tree over `n` items, found by doubling a
    /// power of two until it reaches `n`.
    fn store_size(n: usize) -> (size: usize)
        requires
            n >= 1,
            store_len(n as int) <= usize::MAX,
        ensures
            size == store_len(n as int),
    {
        let ghost top: nat = ceil_log2(n as int);
        let ghost mut c: nat = 0;
        let mut cap: usize = 1;
        proof {
            lemma_ceil_log2(n as int);
            lemma_pow2_unfold(top + 1);
            lemma2_to64();
        }
        while cap < n
            invariant
                n >= 1,
                top == ceil_log2(n as int),
                n <= pow2(top),
                2 * pow2(top) - 1 <= usize::MAX,
                cap == pow2(c),
                cap >= 1,
                c <= top,
                c > 0 ==> pow2((c - 1) as nat) < n,
            decreases top - c,
        {
            proof {
                lemma_pow2_unfold(c + 1);
                if c + 1 < top {
                    lemma_pow2_strictly_increases(c + 1, top);
                }
            }
            cap = cap * 2;
            proof {
                c = c + 1;
            }
        }
        proof {
            if c < top && c < top - 1 {
                lemma_pow2_strictly_increases(c, (top - 1) as nat);
            }
        }
        cap + (cap - 1)
    }

    /// Fills the subtree of node `p`, which covers `[s, t]`, from the items
    /// `v`: each leaf gets its item, each node above the leaves the
    /// combination of its two children.
    fn build(v: &Vec<T>, store: &mut Vec<T>, monoid: &M, s: usize, t: usize, p: usize)
        requires
            monoid.valid(),
            exact_clone::<T>(),
            span(v@.len() as int, p as int) == Some((s as int, t as int)),
            old(store)@.len() == store_len(v@.len() as int),
            blank(*monoid, old(store)@, p as int),
        ensures
            same_outside(old(store)@, final(store)@, p as int),
            holds(*monoid, v@, final(store)@, p as int),
        decreases t - s,
    {
        let ghost n: int = v@.len() as int;
        let ghost before = store@;
        proof {
            lemma_span_within(n, p as int);
            lemma_span_fits(n, p as int);
            lemma_span_children(n, p as int);
        }
        if s == t {
            let item = v[s].clone();
            assert(cloned(v@[s as int], item));
            store[p - 1] = item;
            proof {
                lemma_holds_leaf_set(
                    *monoid,
                    Seq::<T>::empty(),
                    v@,
                    before,
                    store@,
                    p as int,
                    s as int,
                );
            }
        } else {
            let m: usize = s + (t - s) / 2;
            proof {
                assert(2 * p + 1 <= store.len());
                lemma_holds_children(*monoid, Seq::<T>::empty(), before, p as int);
            }
            Self::build(v, store, monoid, s, m, p * 2);
            let ghost left_done = store@;
            proof {
                lemma_holds_kept(*monoid, Seq::<T>::empty(), before, left_done, 2 * p + 1, 2 * p);
            }
            Self::build(v, store, monoid, m + 1, t, p * 2 + 1);
            let ghost both_done = store@;
            let node = monoid.combine(&store[p * 2 - 1], &store[p * 2]);
            store[p - 1] = node;
            proof {
                lemma_holds_kept(*monoid, v@, left_done, both_done, 2 * p, 2 * p + 1);
                lemma_holds_set(*monoid, v@, both_done, store@, p as int, s as int, t as int);
                lemma_same_outside_parent(before, left_done, both_done, store@, p as int, node);
            }
        }
    }

    /// The fold of the items of `[first, past)` that node `p` covers, which
    /// covers `[s, t]`. A node that lies within the range gives its slot; any
    /// other node combines what its children give, the left one first.
    fn get_range_sum(&self, s: usize, t: usize, first: usize, past: usize, p: usize) -> (sum: T)
        requires
            self.wf(),
            span(self@.len() as int, p as int) == Some((s as int, t as int)),
            first < past <= self@.len(),
            s < past,
            first <= t,
        ensures
            sum == fold(
                self.monoid,
                self@.subrange(
                    if first <= s {
                        s as int
                    } else {
                        first as int
                    },
                    if t < past {
                        t + 1
                    } else {
                        past as int
                    },
                ),
            ),
        decreases t - s,
    {
        let ghost n: int = self@.len() as int;
        let ghost items = self@;
        proof {
            lemma_span_within(n, p as int);
            lemma_span_fits(n, p as int);
            lemma_span_children(n, p as int);
            assert(s < t ==> 2 * p + 1 <= self.store.len());
        }
        if first <= s && s < past && first <= t && t < past {
            let sum = self.store[p - 1].clone();
            proof {
                assert(cloned(self.store@[p - 1], sum));
            }
            sum
        } else {
            let m: usize = s + (t - s) / 2;
            let mut sum = self.monoid.zero();
            let ghost lo: int = if first <= s {
                s as int
            } else {
                first as int
            };
            let ghost hi: int = if t < past {
                t + 1
            } else {
                past as int
            };
            if first <= m {
                let left = self.get_range_sum(s, m, first, past, p * 2);
                sum = self.monoid.combine(&sum, &left);
                proof {
                    self.monoid.law_neutral(left);
                }
            }
            if past > m + 1 {
                let right = self.get_range_sum(m + 1, t, first, past, p * 2 + 1);
                sum = self.monoid.combine(&sum, &right);
                proof {
                    if first <= m {
                        lemma_fold_concat(
                            self.monoid,
                            items.subrange(lo, m + 1),
                            items.subrange(m + 1, hi),
                        );
                        assert(items.subrange(lo, hi) =~= items.subrange(lo, m + 1)
                            + items.subrange(m + 1, hi));
                    } else {
                        self.monoid.law_neutral(right);
                    }
                }
            }
            sum
        }
    }

    /// Combines `val` into the leaves of `[first, past)` below node `p`,
    /// which covers `[s, t]`, and sets each node above them on the way back
    /// to the combination of its two children.
    fn update_impl(
        &mut self,
        s: usize,
        t: usize,
        first: usize,
        past: usize,
        p: usize,
        val: &T,
        Ghost(items): Ghost<Seq<T>>,
    )
        requires
            old(self).monoid.valid(),
            items.len() == old(self).len,
            span(items.len() as int, p as int) == Some((s as int, t as int)),
            first < past <= items.len(),
            s < past,
            first <= t,
            old(self).store@.len() == store_len(items.len() as int),
            holds(old(self).monoid, items, old(self).store@, p as int),
        ensures
            final(self).monoid == old(self).monoid,
            final(self).len == old(self).len,
            same_outside(old(self).store@, final(self).store@, p as int),
            holds(
                old(self).monoid,
                folded_in(old(self).monoid, items, first as int, past as int, *val),
                final(self).store@,
                p as int,
            ),
        decreases t - s,
    {
        let ghost n: int = items.len() as int;
        let ghost before = self.store@;
        let ghost after = folded_in(self.monoid, items, first as int, past as int, *val);
        proof {
            lemma_span_within(n, p as int);
            lemma_span_fits(n, p as int);
            lemma_span_children(n, p as int);
        }
        if s == t {
            proof {
                assert(slot(before, p as int) == node_value(self.monoid, items, p as int));
                lemma_node_value_leaf(self.monoid, items, p as int, s as int);
            }
            let node = self.monoid.combine(&self.store[p - 1], val);
            self.store[p - 1] = node;
            proof {
                lemma_holds_leaf_set(
                    self.monoid,
                    items,
                    after,
                    before,
                    self.store@,
                    p as int,
                    s as int,
                );
            }
            return ;
        }
        let m: usize = s + (t - s) / 2;
        proof {
            assert(2 * p + 1 <= self.store.len());
            lemma_holds_children(self.monoid, items, before, p as int);
        }
        if m >= first {
            self.update_impl(s, m, first, past, p * 2, val, Ghost(items));
        } else {
            proof {
                lemma_holds_agrees(self.monoid, items, after, before, 2 * p);
            }
        }
        let ghost left_done = self.store@;
        proof {
            lemma_holds_kept(self.monoid, items, before, left_done, 2 * p + 1, 2 * p);
        }
        if m + 1 < past {
            self.update_impl(m + 1, t, first, past, p * 2 + 1, val, Ghost(items));
        } else {
            proof {
                lemma_holds_agrees(self.monoid, items, after, left_done, 2 * p + 1);
            }
        }
        let ghost both_done = self.store@;
        let node = self.monoid.combine(&self.store[p * 2 - 1], &self.store[p * 2]);
        self.store[p - 1] = node;
        proof {
            lemma_holds_kept(self.monoid, after, left_done, both_done, 2 * p, 2 * p + 1);
            lemma_holds_set(self.monoid, after, both_done, self.store@, p as int, s as int, t as int);
            lemma_same_outside_parent(before, left_done, both_done, self.store@, p as int, node);
        }
    }
}

} // verus!
