//! Facts on residues, for multiplication that wraps around.

use vstd::prelude::*;
use vstd::arithmetic::div_mod::{
    lemma_mod_multiples_vanish, lemma_mod_twice, lemma_mul_mod_noop_general, lemma_small_mod,
};

verus! {

/// A residue modulo `r` stays the same residue when it is reduced again, and
/// when `r` is taken from it.
pub(crate) proof fn lemma_residue_shift(x: int, r: int)
    requires
        r > 0,
    ensures
        (x % r) % r == x % r,
        (x % r - r) % r == x % r,
{
    lemma_mod_twice(x, r);
    lemma_mod_multiples_vanish(-1, x % r, r);
}

/// The residue modulo `r` of a number between `-r` and `r`: the number
/// itself, or the number with `r` added to it where it is negative.
pub(crate) proof fn lemma_residue_near(x: int, r: int)
    requires
        -r <= x < r,
    ensures
        x >= 0 ==> x % r == x,
        x < 0 ==> x % r == x + r,
{
    if x >= 0 {
        lemma_small_mod(x as nat, r as nat);
    } else {
        lemma_small_mod((x + r) as nat, r as nat);
        lemma_mod_multiples_vanish(1, x, r);
    }
}

/// A product keeps its residue modulo `r` when each factor is replaced by
/// another number of the same residue.
pub(crate) proof fn lemma_product_residue(x: int, y: int, u: int, v: int, r: int)
    requires
        r > 0,
        x % r == u % r,
        y % r == v % r,
    ensures
        (x * y) % r == (u * v) % r,
{
    lemma_mul_mod_noop_general(x, y, r);
    lemma_mul_mod_noop_general(u, v, r);
}

/// Multiplication modulo `r` is associative: with `p` of the residue of
/// `a * b` and `q` of the residue of `b * c`, the products `p * c` and `a * q`
/// have the same residue.
pub(crate) proof fn lemma_wrap_associative(a: int, b: int, c: int, p: int, q: int, r: int)
    requires
        r > 0,
        p % r == (a * b) % r,
        q % r == (b * c) % r,
    ensures
        (p * c) % r == (a * q) % r,
{
    lemma_product_residue(p, c, a * b, c, r);
    lemma_product_residue(a, q, a, b * c, r);
    assert((a * b) * c == a * (b * c)) by (nonlinear_arith);
}

} // verus!
