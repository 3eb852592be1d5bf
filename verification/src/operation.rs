//! Monoids: the trait, the fold of a sequence, and the monoids that come with
//! the library.

use vstd::prelude::*;

verus! {

/// A monoid over `T`: a neutral element and an associative way to combine two
/// values. The combination need not be commutative, so the order of the two
/// operands always matters.
pub trait Monoid<T> {
    /// Whether this instance may be used: its two operations can then be
    /// called on any values, and they compute `spec_zero` and `spec_combine`.
    spec fn valid(&self) -> bool;

    /// The neutral element.
    spec fn spec_zero(&self) -> T;

    /// The combination of `lhs` and `rhs`, in this order.
    spec fn spec_combine(&self, lhs: T, rhs: T) -> T;

    /// The neutral element leaves every value unchanged, on either side.
    proof fn law_neutral(&self, x: T)
        requires
            self.valid(),
        ensures
            self.spec_combine(self.spec_zero(), x) == x,
            self.spec_combine(x, self.spec_zero()) == x,
    ;

    /// Combining is associative.
    proof fn law_associative(&self, a: T, b: T, c: T)
        requires
            self.valid(),
        ensures
            self.spec_combine(self.spec_combine(a, b), c) == self.spec_combine(
                a,
                self.spec_combine(b, c),
            ),
    ;

    /// Gives the neutral element.
    fn zero(&self) -> (z: T)
        requires
            self.valid(),
        ensures
            z == self.spec_zero(),
    ;

    /// Combines `lhs` and `rhs`, in this order.
    fn combine(&self, lhs: &T, rhs: &T) -> (r: T)
        requires
            self.valid(),
        ensures
            r == self.spec_combine(*lhs, *rhs),
    ;
}

/// The left-to-right fold of `s`: the neutral element combined with each item
/// of `s` in turn.
pub open spec fn fold<T, M: Monoid<T>>(m: M, s: Seq<T>) -> T
    decreases s.len(),
{
    if s.len() == 0 {
        m.spec_zero()
    } else {
        m.spec_combine(fold(m, s.drop_last()), s.last())
    }
}

/// The fold of a single item is the item.
pub proof fn lemma_fold_one<T, M: Monoid<T>>(m: M, x: T)
    requires
        m.valid(),
    ensures
        fold(m, seq![x]) == x,
{
    let s = seq![x];
    assert(fold(m, s.drop_last()) == m.spec_zero());
    m.law_neutral(x);
}

/// Folding two sequences one after the other and combining the two results
/// is folding their concatenation.
pub proof fn lemma_fold_concat<T, M: Monoid<T>>(m: M, a: Seq<T>, b: Seq<T>)
    requires
        m.valid(),
    ensures
        fold(m, a + b) == m.spec_combine(fold(m, a), fold(m, b)),
    decreases b.len(),
{
    if b.len() == 0 {
        assert(a + b =~= a);
        m.law_neutral(fold(m, a));
    } else {
        let ab = a + b;
        assert(ab.drop_last() =~= a + b.drop_last());
        lemma_fold_concat(m, a, b.drop_last());
        m.law_associative(fold(m, a), fold(m, b.drop_last()), b.last());
    }
}

/// Two monoids with the same neutral element and the same combination fold
/// every sequence to the same value, whatever their types.
pub proof fn lemma_fold_same<T, A: Monoid<T>, B: Monoid<T>>(a: A, b: B, s: Seq<T>)
    requires
        a.spec_zero() == b.spec_zero(),
        forall|x: T, y: T| #[trigger] a.spec_combine(x, y) == b.spec_combine(x, y),
    ensures
        fold(a, s) == fold(b, s),
    decreases s.len(),
{
    if s.len() > 0 {
        lemma_fold_same(a, b, s.drop_last());
    }
}

/// Addition, a monoid over each primitive integer type. It wraps around at
/// the bounds of the type, so that it is defined and associative on all
/// values.
pub struct Sum;

/// Multiplication, a monoid over each primitive integer type. It wraps around
/// at the bounds of the type, so that it is defined and associative on all
/// values.
pub struct Product;

/// A monoid given at run time: a neutral element and a function that
/// combines two values.
pub struct MonoidType<T, F> {
    /// The neutral element.
    pub zero: T,
    /// Combines two values, the left one first.
    pub op: F,
}

impl<T: Clone, F: Fn(&T, &T) -> T> MonoidType<T, F> {
    /// Whether `g` describes this instance: every result that `op` can give
    /// is the value of `g`, `zero` is neutral for `g`, and `g` is associative.
    pub open spec fn described_by(&self, g: spec_fn(T, T) -> T) -> bool {
        &&& forall|a: T, b: T, r: T| #[trigger] call_ensures(self.op, (&a, &b), r) ==> r == g(a, b)
        &&& forall|x: T| #[trigger] g(self.zero, x) == x
        &&& forall|x: T| #[trigger] g(x, self.zero) == x
        &&& forall|a: T, b: T, c: T| #[trigger] g(g(a, b), c) == g(a, #[trigger] g(b, c))
    }

    /// One function that describes this instance, where there is any.
    pub open spec fn describing(&self) -> spec_fn(T, T) -> T {
        choose|g: spec_fn(T, T) -> T| self.described_by(g)
    }

    /// Puts a neutral element and a function together. The three conditions
    /// are those of `valid`, which therefore holds of the result.
    pub fn new(zero: T, op: F) -> (m: Self)
        requires
            forall|a: T, b: T| #[trigger] call_requires(op, (&a, &b)),
            forall|z: T| #[trigger] cloned(zero, z) ==> z == zero,
            exists|g: spec_fn(T, T) -> T| (#[trigger] (MonoidType { zero, op }).described_by(g)),
        ensures
            m.zero == zero,
            m.op == op,
            m.valid(),
    {
        MonoidType { zero, op }
    }
}

impl<T: Clone, F: Fn(&T, &T) -> T> Monoid<T> for MonoidType<T, F> {
    /// `op` accepts any two values, a clone of `zero` is `zero`, and some
    /// function describes the instance.
    open spec fn valid(&self) -> bool {
        &&& forall|a: T, b: T| #[trigger] call_requires(self.op, (&a, &b))
        &&& forall|z: T| #[trigger] cloned(self.zero, z) ==> z == self.zero
        &&& exists|g: spec_fn(T, T) -> T| self.described_by(g)
    }

    open spec fn spec_zero(&self) -> T {
        self.zero
    }

    /// The value at `lhs` and `rhs` of the function that describes the
    /// instance. Each result of `op` is such a value.
    open spec fn spec_combine(&self, lhs: T, rhs: T) -> T {
        (self.describing())(lhs, rhs)
    }

    proof fn law_neutral(&self, x: T) {
    }

    proof fn law_associative(&self, a: T, b: T, c: T) {
    }

    fn zero(&self) -> T {
        let z = self.zero.clone();
        assert(cloned(self.zero, z));
        z
    }

    fn combine(&self, lhs: &T, rhs: &T) -> T {
        (self.op)(lhs, rhs)
    }
}

} // verus!
