use segtree::bound::{normalize, Bound};
use segtree::operation::{Monoid, MonoidType, Product, Sum};
use segtree::SegTree;

#[test]
fn normalize_follows_each_bound() {
    assert_eq!(
        normalize(Bound::Included(2), Bound::Excluded(5), 9),
        Some((2, 5))
    );
    assert_eq!(
        normalize(Bound::Excluded(2), Bound::Included(5), 9),
        Some((3, 6))
    );
    assert_eq!(normalize(Bound::Unbounded, Bound::Unbounded, 9), Some((0, 9)));
    assert_eq!(normalize(Bound::Included(8), Bound::Unbounded, 9), Some((8, 9)));
    assert_eq!(normalize(Bound::Unbounded, Bound::Included(0), 9), Some((0, 1)));
    assert_eq!(normalize(Bound::Unbounded, Bound::Included(8), 9), Some((0, 9)));
}

#[test]
fn normalize_rejects_empty_ranges() {
    assert_eq!(normalize(Bound::Included(3), Bound::Excluded(3), 9), None);
    assert_eq!(normalize(Bound::Excluded(3), Bound::Included(3), 9), None);
    assert_eq!(normalize(Bound::Included(4), Bound::Excluded(3), 9), None);
    assert_eq!(normalize(Bound::Unbounded, Bound::Excluded(0), 9), None);
    assert_eq!(normalize(Bound::Included(9), Bound::Unbounded, 9), None);
    assert_eq!(normalize(Bound::Unbounded, Bound::Unbounded, 0), None);
}

#[test]
fn normalize_rejects_ranges_beyond_the_length() {
    assert_eq!(normalize(Bound::Unbounded, Bound::Excluded(10), 9), None);
    assert_eq!(normalize(Bound::Unbounded, Bound::Included(9), 9), None);
    assert_eq!(normalize(Bound::Included(0), Bound::Included(usize::MAX), 9), None);
    assert_eq!(normalize(Bound::Excluded(usize::MAX), Bound::Unbounded, 9), None);
    assert_eq!(
        normalize(Bound::Unbounded, Bound::Included(usize::MAX), usize::MAX),
        None
    );
    assert_eq!(
        normalize(Bound::Unbounded, Bound::Excluded(usize::MAX), usize::MAX),
        Some((0, usize::MAX))
    );
}

#[test]
fn sum_has_zero_as_its_neutral_element() {
    assert_eq!(Monoid::<i8>::zero(&Sum), 0);
    assert_eq!(Monoid::<i16>::zero(&Sum), 0);
    assert_eq!(Monoid::<i32>::zero(&Sum), 0);
    assert_eq!(Monoid::<i64>::zero(&Sum), 0);
    assert_eq!(Monoid::<i128>::zero(&Sum), 0);
    assert_eq!(Monoid::<isize>::zero(&Sum), 0);
    assert_eq!(Monoid::<u8>::zero(&Sum), 0);
    assert_eq!(Monoid::<u16>::zero(&Sum), 0);
    assert_eq!(Monoid::<u32>::zero(&Sum), 0);
    assert_eq!(Monoid::<u64>::zero(&Sum), 0);
    assert_eq!(Monoid::<u128>::zero(&Sum), 0);
    assert_eq!(Monoid::<usize>::zero(&Sum), 0);
}

#[test]
fn product_has_one_as_its_neutral_element() {
    assert_eq!(Monoid::<i8>::zero(&Product), 1);
    assert_eq!(Monoid::<i16>::zero(&Product), 1);
    assert_eq!(Monoid::<i32>::zero(&Product), 1);
    assert_eq!(Monoid::<i64>::zero(&Product), 1);
    assert_eq!(Monoid::<i128>::zero(&Product), 1);
    assert_eq!(Monoid::<isize>::zero(&Product), 1);
    assert_eq!(Monoid::<u8>::zero(&Product), 1);
    assert_eq!(Monoid::<u16>::zero(&Product), 1);
    assert_eq!(Monoid::<u32>::zero(&Product), 1);
    assert_eq!(Monoid::<u64>::zero(&Product), 1);
    assert_eq!(Monoid::<u128>::zero(&Product), 1);
    assert_eq!(Monoid::<usize>::zero(&Product), 1);
}

#[test]
fn sum_combines_by_wrapping_addition() {
    assert_eq!(Sum.combine(&3i32, &4), 7);
    assert_eq!(Sum.combine(&i8::MAX, &1), i8::MIN);
    assert_eq!(Sum.combine(&i16::MIN, &-1), i16::MAX);
    assert_eq!(Sum.combine(&i32::MAX, &1), i32::MIN);
    assert_eq!(Sum.combine(&i32::MIN, &-1), i32::MAX);
    assert_eq!(Sum.combine(&i64::MAX, &i64::MAX), -2);
    assert_eq!(Sum.combine(&i128::MAX, &1), i128::MIN);
    assert_eq!(Sum.combine(&isize::MAX, &1), isize::MIN);
    assert_eq!(Sum.combine(&200u8, &100), 44);
    assert_eq!(Sum.combine(&u16::MAX, &u16::MAX), u16::MAX - 1);
    assert_eq!(Sum.combine(&u32::MAX, &4), 3);
    assert_eq!(Sum.combine(&u64::MAX, &u64::MAX), u64::MAX - 1);
    assert_eq!(Sum.combine(&u128::MAX, &2), 1);
    assert_eq!(Sum.combine(&usize::MAX, &1), 0);
}

#[test]
fn product_combines_by_wrapping_multiplication() {
    assert_eq!(Product.combine(&3i32, &-4), -12);
    assert_eq!(Product.combine(&64i8, &2), i8::MIN);
    assert_eq!(Product.combine(&i16::MAX, &i16::MAX), 1);
    assert_eq!(Product.combine(&i32::MAX, &2), -2);
    assert_eq!(Product.combine(&i32::MIN, &-1), i32::MIN);
    assert_eq!(Product.combine(&i64::MIN, &3), i64::MIN);
    assert_eq!(Product.combine(&i128::MAX, &-2), 2);
    assert_eq!(Product.combine(&isize::MAX, &isize::MAX), 1);
    assert_eq!(Product.combine(&16u8, &17), 16);
    assert_eq!(Product.combine(&u16::MAX, &3), u16::MAX - 2);
    assert_eq!(Product.combine(&(1u32 << 16), &(1u32 << 16)), 0);
    assert_eq!(Product.combine(&u64::MAX, &u64::MAX), 1);
    assert_eq!(Product.combine(&(1u128 << 127), &2), 0);
    assert_eq!(Product.combine(&usize::MAX, &2), usize::MAX - 1);
}

#[test]
fn monoid_type_calls_its_function() {
    let keep_right = MonoidType::new(None, |a: &Option<u8>, b: &Option<u8>| b.or(*a));
    assert_eq!(keep_right.zero(), None);
    assert_eq!(keep_right.combine(&Some(1), &Some(2)), Some(2));
    assert_eq!(keep_right.combine(&Some(1), &None), Some(1));
    assert_eq!(keep_right.combine(&None, &Some(2)), Some(2));
    let tree = SegTree::new(vec![None, Some(3), None, Some(9), None], keep_right);
    assert_eq!(tree.query(Bound::Unbounded, Bound::Unbounded), Some(Some(9)));
    assert_eq!(
        tree.query(Bound::Unbounded, Bound::Excluded(3)),
        Some(Some(3))
    );
    assert_eq!(tree.query(Bound::Unbounded, Bound::Excluded(1)), Some(None));
}

#[test]
fn bounds_compare_by_kind_and_index() {
    assert_eq!(Bound::Included(3), Bound::Included(3));
    assert_ne!(Bound::Included(3), Bound::Excluded(3));
    assert_ne!(Bound::Included(3), Bound::Included(4));
    assert_ne!(Bound::Unbounded, Bound::Excluded(0));
    let copy = Bound::Excluded(7);
    assert_eq!(format!("{:?}", copy), "Excluded(7)");
}
