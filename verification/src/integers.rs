//! `Sum` and `Product` as monoids over the primitive integer types, with
//! arithmetic that wraps around. The neutral elements come from `num_traits`.

use vstd::prelude::*;
use vstd::wrapping::*;
use crate::modular::{lemma_residue_near, lemma_residue_shift, lemma_wrap_associative};
use crate::operation::{Monoid, Product, Sum};

verus! {

/// `<i8 as num_traits::Zero>::zero`, which returns the literal `0`.
#[verifier::external_body]
fn zero_i8() -> (z: i8)
    ensures
        z == 0,
{
    num_traits::Zero::zero()
}

/// `<i8 as num_traits::One>::one`, which returns the literal `1`.
#[verifier::external_body]
fn one_i8() -> (z: i8)
    ensures
        z == 1,
{
    num_traits::One::one()
}

/// `<i16 as num_traits::Zero>::zero`, which returns the literal `0`.
#[verifier::external_body]
fn zero_i16() -> (z: i16)
    ensures
        z == 0,
{
    num_traits::Zero::zero()
}

/// `<i16 as num_traits::One>::one`, which returns the literal `1`.
#[verifier::external_body]
fn one_i16() -> (z: i16)
    ensures
        z == 1,
{
    num_traits::One::one()
}

/// `<i32 as num_traits::Zero>::zero`, which returns the literal `0`.
#[verifier::external_body]
fn zero_i32() -> (z: i32)
    ensures
        z == 0,
{
    num_traits::Zero::zero()
}

/// `<i32 as num_traits::One>::one`, which returns the literal `1`.
#[verifier::external_body]
fn one_i32() -> (z: i32)
    ensures
        z == 1,
{
    num_traits::One::one()
}

/// `<i64 as num_traits::Zero>::zero`, which returns the literal `0`.
#[verifier::external_body]
fn zero_i64() -> (z: i64)
    ensures
        z == 0,
{
    num_traits::Zero::zero()
}

/// `<i64 as num_traits::One>::one`, which returns the literal `1`.
#[verifier::external_body]
fn one_i64() -> (z: i64)
    ensures
        z == 1,
{
    num_traits::One::one()
}

/// `<i128 as num_traits::Zero>::zero`, which returns the literal `0`.
#[verifier::external_body]
fn zero_i128() -> (z: i128)
    ensures
        z == 0,
{
    num_traits::Zero::zero()
}

/// `<i128 as num_traits::One>::one`, which returns the literal `1`.
#[verifier::external_body]
fn one_i128() -> (z: i128)
    ensures
        z == 1,
{
    num_traits::One::one()
}

/// `<isize as num_traits::Zero>::zero`, which returns the literal `0`.
#[verifier::external_body]
fn zero_isize() -> (z: isize)
    ensures
        z == 0,
{
    num_traits::Zero::zero()
}

/// `<isize as num_traits::One>::one`, which returns the literal `1`.
#[verifier::external_body]
fn one_isize() -> (z: isize)
    ensures
        z == 1,
{
    num_traits::One::one()
}

/// `<u8 as num_traits::Zero>::zero`, which returns the literal `0`.
#[verifier::external_body]
fn zero_u8() -> (z: u8)
    ensures
        z == 0,
{
    num_traits::Zero::zero()
}

/// `<u8 as num_traits::One>::one`, which returns the literal `1`.
#[verifier::external_body]
fn one_u8() -> (z: u8)
    ensures
        z == 1,
{
    num_traits::One::one()
}

/// `<u16 as num_traits::Zero>::zero`, which returns the literal `0`.
#[verifier::external_body]
fn zero_u16() -> (z: u16)
    ensures
        z == 0,
{
    num_traits::Zero::zero()
}

/// `<u16 as num_traits::One>::one`, which returns the literal `1`.
#[verifier::external_body]
fn one_u16() -> (z: u16)
    ensures
        z == 1,
{
    num_traits::One::one()
}

/// `<u32 as num_traits::Zero>::zero`, which returns the literal `0`.
#[verifier::external_body]
fn zero_u32() -> (z: u32)
    ensures
        z == 0,
{
    num_traits::Zero::zero()
}

/// `<u32 as num_traits::One>::one`, which returns the literal `1`.
#[verifier::external_body]
fn one_u32() -> (z: u32)
    ensures
        z == 1,
{
    num_traits::One::one()
}

/// `<u64 as num_traits::Zero>::zero`, which returns the literal `0`.
#[verifier::external_body]
fn zero_u64() -> (z: u64)
    ensures
        z == 0,
{
    num_traits::Zero::zero()
}

/// `<u64 as num_traits::One>::one`, which returns the literal `1`.
#[verifier::external_body]
fn one_u64() -> (z: u64)
    ensures
        z == 1,
{
    num_traits::One::one()
}

/// `<u128 as num_traits::Zero>::zero`, which returns the literal `0`.
#[verifier::external_body]
fn zero_u128() -> (z: u128)
    ensures
        z == 0,
{
    num_traits::Zero::zero()
}

/// `<u128 as num_traits::One>::one`, which returns the literal `1`.
#[verifier::external_body]
fn one_u128() -> (z: u128)
    ensures
        z == 1,
{
    num_traits::One::one()
}

/// `<usize as num_traits::Zero>::zero`, which returns the literal `0`.
#[verifier::external_body]
fn zero_usize() -> (z: usize)
    ensures
        z == 0,
{
    num_traits::Zero::zero()
}

/// `<usize as num_traits::One>::one`, which returns the literal `1`.
#[verifier::external_body]
fn one_usize() -> (z: usize)
    ensures
        z == 1,
{
    num_traits::One::one()
}

impl Monoid<i8> for Sum {
    open spec fn valid(&self) -> bool {
        true
    }

    open spec fn spec_zero(&self) -> i8 {
        0
    }

    open spec fn spec_combine(&self, lhs: i8, rhs: i8) -> i8 {
        i8_specs::wrapping_add(lhs, rhs)
    }

    proof fn law_neutral(&self, x: i8) {
    }

    proof fn law_associative(&self, a: i8, b: i8, c: i8) {
    }

    fn zero(&self) -> i8 {
        zero_i8()
    }

    fn combine(&self, lhs: &i8, rhs: &i8) -> i8 {
        lhs.wrapping_add(*rhs)
    }
}

impl Monoid<i8> for Product {
    open spec fn valid(&self) -> bool {
        true
    }

    open spec fn spec_zero(&self) -> i8 {
        1
    }

    open spec fn spec_combine(&self, lhs: i8, rhs: i8) -> i8 {
        i8_specs::wrapping_mul(lhs, rhs)
    }

    proof fn law_neutral(&self, x: i8) {
    }

    proof fn law_associative(&self, a: i8, b: i8, c: i8) {
        let r: int = 0x100;
        let p: int = self.spec_combine(a, b) as int;
        let q: int = self.spec_combine(b, c) as int;
        lemma_residue_shift(a * b, r);
        lemma_residue_shift(b * c, r);
        lemma_wrap_associative(a as int, b as int, c as int, p, q, r);
    }

    fn zero(&self) -> i8 {
        one_i8()
    }

    fn combine(&self, lhs: &i8, rhs: &i8) -> i8 {
        lhs.wrapping_mul(*rhs)
    }
}

impl Monoid<i16> for Sum {
    open spec fn valid(&self) -> bool {
        true
    }

    open spec fn spec_zero(&self) -> i16 {
        0
    }

    open spec fn spec_combine(&self, lhs: i16, rhs: i16) -> i16 {
        i16_specs::wrapping_add(lhs, rhs)
    }

    proof fn law_neutral(&self, x: i16) {
    }

    proof fn law_associative(&self, a: i16, b: i16, c: i16) {
    }

    fn zero(&self) -> i16 {
        zero_i16()
    }

    fn combine(&self, lhs: &i16, rhs: &i16) -> i16 {
        lhs.wrapping_add(*rhs)
    }
}

impl Monoid<i16> for Product {
    open spec fn valid(&self) -> bool {
        true
    }

    open spec fn spec_zero(&self) -> i16 {
        1
    }

    open spec fn spec_combine(&self, lhs: i16, rhs: i16) -> i16 {
        i16_specs::wrapping_mul(lhs, rhs)
    }

    proof fn law_neutral(&self, x: i16) {
    }

    proof fn law_associative(&self, a: i16, b: i16, c: i16) {
        let r: int = 0x1_0000;
        let p: int = self.spec_combine(a, b) as int;
        let q: int = self.spec_combine(b, c) as int;
        lemma_residue_shift(a * b, r);
        lemma_residue_shift(b * c, r);
        lemma_wrap_associative(a as int, b as int, c as int, p, q, r);
    }

    fn zero(&self) -> i16 {
        one_i16()
    }

    fn combine(&self, lhs: &i16, rhs: &i16) -> i16 {
        lhs.wrapping_mul(*rhs)
    }
}

impl Monoid<i32> for Sum {
    open spec fn valid(&self) -> bool {
        true
    }

    open spec fn spec_zero(&self) -> i32 {
        0
    }

    open spec fn spec_combine(&self, lhs: i32, rhs: i32) -> i32 {
        i32_specs::wrapping_add(lhs, rhs)
    }

    proof fn law_neutral(&self, x: i32) {
    }

    proof fn law_associative(&self, a: i32, b: i32, c: i32) {
    }

    fn zero(&self) -> i32 {
        zero_i32()
    }

    fn combine(&self, lhs: &i32, rhs: &i32) -> i32 {
        lhs.wrapping_add(*rhs)
    }
}

impl Monoid<i32> for Product {
    open spec fn valid(&self) -> bool {
        true
    }

    open spec fn spec_zero(&self) -> i32 {
        1
    }

    open spec fn spec_combine(&self, lhs: i32, rhs: i32) -> i32 {
        i32_specs::wrapping_mul(lhs, rhs)
    }

    proof fn law_neutral(&self, x: i32) {
    }

    proof fn law_associative(&self, a: i32, b: i32, c: i32) {
        let r: int = 0x1_0000_0000;
        let p: int = self.spec_combine(a, b) as int;
        let q: int = self.spec_combine(b, c) as int;
        lemma_residue_shift(a * b, r);
        lemma_residue_shift(b * c, r);
        lemma_wrap_associative(a as int, b as int, c as int, p, q, r);
    }

    fn zero(&self) -> i32 {
        one_i32()
    }

    fn combine(&self, lhs: &i32, rhs: &i32) -> i32 {
        lhs.wrapping_mul(*rhs)
    }
}

impl Monoid<i64> for Sum {
    open spec fn valid(&self) -> bool {
        true
    }

    open spec fn spec_zero(&self) -> i64 {
        0
    }

    open spec fn spec_combine(&self, lhs: i64, rhs: i64) -> i64 {
        i64_specs::wrapping_add(lhs, rhs)
    }

    proof fn law_neutral(&self, x: i64) {
    }

    proof fn law_associative(&self, a: i64, b: i64, c: i64) {
    }

    fn zero(&self) -> i64 {
        zero_i64()
    }

    fn combine(&self, lhs: &i64, rhs: &i64) -> i64 {
        lhs.wrapping_add(*rhs)
    }
}

impl Monoid<i64> for Product {
    open spec fn valid(&self) -> bool {
        true
    }

    open spec fn spec_zero(&self) -> i64 {
        1
    }

    open spec fn spec_combine(&self, lhs: i64, rhs: i64) -> i64 {
        i64_specs::wrapping_mul(lhs, rhs)
    }

    proof fn law_neutral(&self, x: i64) {
    }

    proof fn law_associative(&self, a: i64, b: i64, c: i64) {
        let r: int = 0x1_0000_0000_0000_0000;
        let p: int = self.spec_combine(a, b) as int;
        let q: int = self.spec_combine(b, c) as int;
        lemma_residue_shift(a * b, r);
        lemma_residue_shift(b * c, r);
        lemma_wrap_associative(a as int, b as int, c as int, p, q, r);
    }

    fn zero(&self) -> i64 {
        one_i64()
    }

    fn combine(&self, lhs: &i64, rhs: &i64) -> i64 {
        lhs.wrapping_mul(*rhs)
    }
}

impl Monoid<i128> for Sum {
    open spec fn valid(&self) -> bool {
        true
    }

    open spec fn spec_zero(&self) -> i128 {
        0
    }

    open spec fn spec_combine(&self, lhs: i128, rhs: i128) -> i128 {
        i128_specs::wrapping_add(lhs, rhs)
    }

    proof fn law_neutral(&self, x: i128) {
    }

    proof fn law_associative(&self, a: i128, b: i128, c: i128) {
    }

    fn zero(&self) -> i128 {
        zero_i128()
    }

    fn combine(&self, lhs: &i128, rhs: &i128) -> i128 {
        lhs.wrapping_add(*rhs)
    }
}

impl Monoid<i128> for Product {
    open spec fn valid(&self) -> bool {
        true
    }

    open spec fn spec_zero(&self) -> i128 {
        1
    }

    open spec fn spec_combine(&self, lhs: i128, rhs: i128) -> i128 {
        i128_specs::wrapping_mul(lhs, rhs)
    }

    proof fn law_neutral(&self, x: i128) {
    }

    proof fn law_associative(&self, a: i128, b: i128, c: i128) {
        let r: int = u128::MAX + 1;
        let p: int = self.spec_combine(a, b) as int;
        let q: int = self.spec_combine(b, c) as int;
        lemma_residue_shift(a * b, r);
        lemma_residue_shift(b * c, r);
        lemma_wrap_associative(a as int, b as int, c as int, p, q, r);
    }

    fn zero(&self) -> i128 {
        one_i128()
    }

    fn combine(&self, lhs: &i128, rhs: &i128) -> i128 {
        lhs.wrapping_mul(*rhs)
    }
}

impl Monoid<isize> for Sum {
    open spec fn valid(&self) -> bool {
        true
    }

    open spec fn spec_zero(&self) -> isize {
        0
    }

    open spec fn spec_combine(&self, lhs: isize, rhs: isize) -> isize {
        isize_specs::wrapping_add(lhs, rhs)
    }

    proof fn law_neutral(&self, x: isize) {
    }

    proof fn law_associative(&self, a: isize, b: isize, c: isize) {
    }

    fn zero(&self) -> isize {
        zero_isize()
    }

    fn combine(&self, lhs: &isize, rhs: &isize) -> isize {
        lhs.wrapping_add(*rhs)
    }
}

impl Monoid<isize> for Product {
    open spec fn valid(&self) -> bool {
        true
    }

    open spec fn spec_zero(&self) -> isize {
        1
    }

    open spec fn spec_combine(&self, lhs: isize, rhs: isize) -> isize {
        isize_specs::wrapping_mul(lhs, rhs)
    }

    proof fn law_neutral(&self, x: isize) {
        lemma_residue_near(x as int, usize::MAX + 1);
    }

    proof fn law_associative(&self, a: isize, b: isize, c: isize) {
        let r: int = usize::MAX + 1;
        let p: int = self.spec_combine(a, b) as int;
        let q: int = self.spec_combine(b, c) as int;
        lemma_residue_shift(a * b, r);
        lemma_residue_shift(b * c, r);
        lemma_wrap_associative(a as int, b as int, c as int, p, q, r);
    }

    fn zero(&self) -> isize {
        one_isize()
    }

    fn combine(&self, lhs: &isize, rhs: &isize) -> isize {
        lhs.wrapping_mul(*rhs)
    }
}

impl Monoid<u8> for Sum {
    open spec fn valid(&self) -> bool {
        true
    }

    open spec fn spec_zero(&self) -> u8 {
        0
    }

    open spec fn spec_combine(&self, lhs: u8, rhs: u8) -> u8 {
        u8_specs::wrapping_add(lhs, rhs)
    }

    proof fn law_neutral(&self, x: u8) {
    }

    proof fn law_associative(&self, a: u8, b: u8, c: u8) {
    }

    fn zero(&self) -> u8 {
        zero_u8()
    }

    fn combine(&self, lhs: &u8, rhs: &u8) -> u8 {
        lhs.wrapping_add(*rhs)
    }
}

impl Monoid<u8> for Product {
    open spec fn valid(&self) -> bool {
        true
    }

    open spec fn spec_zero(&self) -> u8 {
        1
    }

    open spec fn spec_combine(&self, lhs: u8, rhs: u8) -> u8 {
        u8_specs::wrapping_mul(lhs, rhs)
    }

    proof fn law_neutral(&self, x: u8) {
    }

    proof fn law_associative(&self, a: u8, b: u8, c: u8) {
        let r: int = 0x100;
        let p: int = self.spec_combine(a, b) as int;
        let q: int = self.spec_combine(b, c) as int;
        lemma_residue_shift(a * b, r);
        lemma_residue_shift(b * c, r);
        lemma_wrap_associative(a as int, b as int, c as int, p, q, r);
    }

    fn zero(&self) -> u8 {
        one_u8()
    }

    fn combine(&self, lhs: &u8, rhs: &u8) -> u8 {
        lhs.wrapping_mul(*rhs)
    }
}

impl Monoid<u16> for Sum {
    open spec fn valid(&self) -> bool {
        true
    }

    open spec fn spec_zero(&self) -> u16 {
        0
    }

    open spec fn spec_combine(&self, lhs: u16, rhs: u16) -> u16 {
        u16_specs::wrapping_add(lhs, rhs)
    }

    proof fn law_neutral(&self, x: u16) {
    }

    proof fn law_associative(&self, a: u16, b: u16, c: u16) {
    }

    fn zero(&self) -> u16 {
        zero_u16()
    }

    fn combine(&self, lhs: &u16, rhs: &u16) -> u16 {
        lhs.wrapping_add(*rhs)
    }
}

impl Monoid<u16> for Product {
    open spec fn valid(&self) -> bool {
        true
    }

    open spec fn spec_zero(&self) -> u16 {
        1
    }

    open spec fn spec_combine(&self, lhs: u16, rhs: u16) -> u16 {
        u16_specs::wrapping_mul(lhs, rhs)
    }

    proof fn law_neutral(&self, x: u16) {
    }

    proof fn law_associative(&self, a: u16, b: u16, c: u16) {
        let r: int = 0x1_0000;
        let p: int = self.spec_combine(a, b) as int;
        let q: int = self.spec_combine(b, c) as int;
        lemma_residue_shift(a * b, r);
        lemma_residue_shift(b * c, r);
        lemma_wrap_associative(a as int, b as int, c as int, p, q, r);
    }

    fn zero(&self) -> u16 {
        one_u16()
    }

    fn combine(&self, lhs: &u16, rhs: &u16) -> u16 {
        lhs.wrapping_mul(*rhs)
    }
}

impl Monoid<u32> for Sum {
    open spec fn valid(&self) -> bool {
        true
    }

    open spec fn spec_zero(&self) -> u32 {
        0
    }

    open spec fn spec_combine(&self, lhs: u32, rhs: u32) -> u32 {
        u32_specs::wrapping_add(lhs, rhs)
    }

    proof fn law_neutral(&self, x: u32) {
    }

    proof fn law_associative(&self, a: u32, b: u32, c: u32) {
    }

    fn zero(&self) -> u32 {
        zero_u32()
    }

    fn combine(&self, lhs: &u32, rhs: &u32) -> u32 {
        lhs.wrapping_add(*rhs)
    }
}

impl Monoid<u32> for Product {
    open spec fn valid(&self) -> bool {
        true
    }

    open spec fn spec_zero(&self) -> u32 {
        1
    }

    open spec fn spec_combine(&self, lhs: u32, rhs: u32) -> u32 {
        u32_specs::wrapping_mul(lhs, rhs)
    }

    proof fn law_neutral(&self, x: u32) {
    }

    proof fn law_associative(&self, a: u32, b: u32, c: u32) {
        let r: int = 0x1_0000_0000;
        let p: int = self.spec_combine(a, b) as int;
        let q: int = self.spec_combine(b, c) as int;
        lemma_residue_shift(a * b, r);
        lemma_residue_shift(b * c, r);
        lemma_wrap_associative(a as int, b as int, c as int, p, q, r);
    }

    fn zero(&self) -> u32 {
        one_u32()
    }

    fn combine(&self, lhs: &u32, rhs: &u32) -> u32 {
        lhs.wrapping_mul(*rhs)
    }
}

impl Monoid<u64> for Sum {
    open spec fn valid(&self) -> bool {
        true
    }

    open spec fn spec_zero(&self) -> u64 {
        0
    }

    open spec fn spec_combine(&self, lhs: u64, rhs: u64) -> u64 {
        u64_specs::wrapping_add(lhs, rhs)
    }

    proof fn law_neutral(&self, x: u64) {
    }

    proof fn law_associative(&self, a: u64, b: u64, c: u64) {
    }

    fn zero(&self) -> u64 {
        zero_u64()
    }

    fn combine(&self, lhs: &u64, rhs: &u64) -> u64 {
        lhs.wrapping_add(*rhs)
    }
}

impl Monoid<u64> for Product {
    open spec fn valid(&self) -> bool {
        true
    }

    open spec fn spec_zero(&self) -> u64 {
        1
    }

    open spec fn spec_combine(&self, lhs: u64, rhs: u64) -> u64 {
        u64_specs::wrapping_mul(lhs, rhs)
    }

    proof fn law_neutral(&self, x: u64) {
    }

    proof fn law_associative(&self, a: u64, b: u64, c: u64) {
        let r: int = 0x1_0000_0000_0000_0000;
        let p: int = self.spec_combine(a, b) as int;
        let q: int = self.spec_combine(b, c) as int;
        lemma_residue_shift(a * b, r);
        lemma_residue_shift(b * c, r);
        lemma_wrap_associative(a as int, b as int, c as int, p, q, r);
    }

    fn zero(&self) -> u64 {
        one_u64()
    }

    fn combine(&self, lhs: &u64, rhs: &u64) -> u64 {
        lhs.wrapping_mul(*rhs)
    }
}

impl Monoid<u128> for Sum {
    open spec fn valid(&self) -> bool {
        true
    }

    open spec fn spec_zero(&self) -> u128 {
        0
    }

    open spec fn spec_combine(&self, lhs: u128, rhs: u128) -> u128 {
        u128_specs::wrapping_add(lhs, rhs)
    }

    proof fn law_neutral(&self, x: u128) {
    }

    proof fn law_associative(&self, a: u128, b: u128, c: u128) {
    }

    fn zero(&self) -> u128 {
        zero_u128()
    }

    fn combine(&self, lhs: &u128, rhs: &u128) -> u128 {
        lhs.wrapping_add(*rhs)
    }
}

impl Monoid<u128> for Product {
    open spec fn valid(&self) -> bool {
        true
    }

    open spec fn spec_zero(&self) -> u128 {
        1
    }

    open spec fn spec_combine(&self, lhs: u128, rhs: u128) -> u128 {
        u128_specs::wrapping_mul(lhs, rhs)
    }

    proof fn law_neutral(&self, x: u128) {
    }

    proof fn law_associative(&self, a: u128, b: u128, c: u128) {
        let r: int = u128::MAX + 1;
        let p: int = self.spec_combine(a, b) as int;
        let q: int = self.spec_combine(b, c) as int;
        lemma_residue_shift(a * b, r);
        lemma_residue_shift(b * c, r);
        lemma_wrap_associative(a as int, b as int, c as int, p, q, r);
    }

    fn zero(&self) -> u128 {
        one_u128()
    }

    fn combine(&self, lhs: &u128, rhs: &u128) -> u128 {
        lhs.wrapping_mul(*rhs)
    }
}

impl Monoid<usize> for Sum {
    open spec fn valid(&self) -> bool {
        true
    }

    open spec fn spec_zero(&self) -> usize {
        0
    }

    open spec fn spec_combine(&self, lhs: usize, rhs: usize) -> usize {
        usize_specs::wrapping_add(lhs, rhs)
    }

    proof fn law_neutral(&self, x: usize) {
    }

    proof fn law_associative(&self, a: usize, b: usize, c: usize) {
    }

    fn zero(&self) -> usize {
        zero_usize()
    }

    fn combine(&self, lhs: &usize, rhs: &usize) -> usize {
        lhs.wrapping_add(*rhs)
    }
}

impl Monoid<usize> for Product {
    open spec fn valid(&self) -> bool {
        true
    }

    open spec fn spec_zero(&self) -> usize {
        1
    }

    open spec fn spec_combine(&self, lhs: usize, rhs: usize) -> usize {
        usize_specs::wrapping_mul(lhs, rhs)
    }

    proof fn law_neutral(&self, x: usize) {
        lemma_residue_near(x as int, usize::MAX + 1);
    }

    proof fn law_associative(&self, a: usize, b: usize, c: usize) {
        let r: int = usize::MAX + 1;
        let p: int = self.spec_combine(a, b) as int;
        let q: int = self.spec_combine(b, c) as int;
        lemma_residue_shift(a * b, r);
        lemma_residue_shift(b * c, r);
        lemma_wrap_associative(a as int, b as int, c as int, p, q, r);
    }

    fn zero(&self) -> usize {
        one_usize()
    }

    fn combine(&self, lhs: &usize, rhs: &usize) -> usize {
        lhs.wrapping_mul(*rhs)
    }
}

} // verus!
