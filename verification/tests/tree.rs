use segtree::bound::Bound;
use segtree::operation::{MonoidType, Product, Sum};
use segtree::SegTree;

fn all() -> (Bound, Bound) {
    (Bound::Unbounded, Bound::Unbounded)
}

fn half_open(first: usize, past: usize) -> (Bound, Bound) {
    (Bound::Included(first), Bound::Excluded(past))
}

fn closed(first: usize, last: usize) -> (Bound, Bound) {
    (Bound::Included(first), Bound::Included(last))
}

fn up_to(past: usize) -> (Bound, Bound) {
    (Bound::Unbounded, Bound::Excluded(past))
}

#[test]
fn build() {
    let tree = SegTree::new(vec![10, 11, 12, 13, 14], Sum);
    assert_eq!(tree.store()[..9], vec![60, 33, 27, 21, 12, 13, 14, 10, 11]);
    // The slots behind the last node stay neutral.
    assert_eq!(tree.store()[9..], vec![0; 6]);
    let tree = SegTree::new(vec![4, 3, 2, 1, 2, 3, 4], Sum);
    assert_eq!(tree.store()[..13], vec![19, 10, 9, 7, 3, 5, 4, 4, 3, 2, 1, 2, 3]);
    assert_eq!(tree.store()[13..], vec![0; 2]);
    let _ = SegTree::<i32, _>::new(vec![], Sum);
}

#[test]
fn range_sum() {
    let tree = SegTree::new(vec![10, 11, 12, 13, 14], Sum);
    let (start, end) = half_open(3, 5);
    assert_eq!(tree.query(start, end), Some(27));
    let (start, end) = half_open(1, 5);
    assert_eq!(tree.query(start, end), Some(50));
    let (start, end) = up_to(5);
    assert_eq!(tree.query(start, end), Some(60));
    let (start, end) = all();
    assert_eq!(tree.query(start, end), Some(60));
    let (start, end) = closed(1, 3);
    assert_eq!(tree.query(start, end), Some(36));
    let tree = SegTree::<i32, _>::new(vec![], Sum);
    let (start, end) = all();
    assert_eq!(tree.query(start, end), None);
}

#[test]
fn update() {
    let mut tree = SegTree::new(vec![10, 11, 12, 13, 14], Sum);
    let (start, end) = all();
    tree.update(start, end, 3);
    assert_eq!(tree.query(start, end), Some(13 + 14 + 15 + 16 + 17));
    let (first, past) = up_to(3);
    tree.update(first, past, 1);
    assert_eq!(tree.query(start, end), Some(14 + 15 + 16 + 16 + 17));
}

#[test]
fn monoid_type() {
    let add = MonoidType {
        zero: 0u32,
        op: |a: &'_ u32, b: &'_ u32| a + b,
    };

    let tree = SegTree::new(vec![1, 2, 1876, 911, 11], add);
    let (start, end) = up_to(3);
    assert_eq!(tree.query(start, end), Some(1 + 2 + 1876));
    let (start, end) = all();
    assert_eq!(
        tree.query(start, end),
        Some([1, 2, 1876, 911, 11].into_iter().sum())
    )
}

#[test]
fn empty_tree_has_no_store_and_no_answer() {
    let mut tree = SegTree::<u64, _>::new(Vec::new(), Sum);
    assert!(tree.store().is_empty());
    let bounds = [
        Bound::Unbounded,
        Bound::Included(0),
        Bound::Excluded(0),
        Bound::Included(1),
        Bound::Excluded(1),
    ];
    for start in bounds {
        for end in bounds {
            assert_eq!(tree.query(start, end), None);
            tree.update(start, end, 7);
            assert!(tree.store().is_empty());
        }
    }
}

#[test]
fn store_has_a_slot_for_each_node_of_the_complete_tree() {
    let sizes = [
        (1usize, 1usize),
        (2, 3),
        (3, 7),
        (4, 7),
        (5, 15),
        (6, 15),
        (7, 15),
        (8, 15),
        (9, 31),
        (16, 31),
        (17, 63),
        (1000, 2047),
        (1024, 2047),
        (1025, 4095),
    ];
    for (n, slots) in sizes {
        let tree = SegTree::new(vec![1u32; n], Sum);
        assert_eq!(tree.store().len(), slots);
        assert_eq!(tree.store()[0], n as u32);
    }
}

#[test]
fn single_item() {
    let mut tree = SegTree::new(vec![42i64], Sum);
    assert_eq!(tree.store(), &vec![42]);
    assert_eq!(tree.query(Bound::Unbounded, Bound::Unbounded), Some(42));
    assert_eq!(tree.query(Bound::Included(0), Bound::Included(0)), Some(42));
    assert_eq!(tree.query(Bound::Included(0), Bound::Excluded(0)), None);
    assert_eq!(tree.query(Bound::Included(0), Bound::Included(1)), None);
    tree.update(Bound::Included(0), Bound::Excluded(1), -2);
    assert_eq!(tree.store(), &vec![40]);
}

#[test]
fn two_items() {
    let tree = SegTree::new(vec![5u32, 9], Sum);
    assert_eq!(tree.store(), &vec![14, 5, 9]);
}

#[test]
fn three_items_leave_the_unused_slots_neutral() {
    let tree = SegTree::new(vec![2u64, 3, 5], Product);
    assert_eq!(tree.store(), &vec![30, 6, 5, 2, 3, 1, 1]);
}

#[test]
fn six_items() {
    let mut tree = SegTree::new(vec![1, 2, 3, 4, 5, 6], Sum);
    assert_eq!(
        tree.store(),
        &vec![21, 6, 15, 3, 3, 9, 6, 1, 2, 0, 0, 4, 5, 0, 0]
    );
    assert_eq!(tree.query(Bound::Included(2), Bound::Included(4)), Some(12));
    tree.update(Bound::Included(4), Bound::Unbounded, 10);
    assert_eq!(
        tree.store(),
        &vec![41, 6, 35, 3, 3, 19, 16, 1, 2, 0, 0, 4, 15, 0, 0]
    );
}

#[test]
fn left_part_gets_the_extra_item() {
    let tree = SegTree::new(vec![1, 10, 100], Sum);
    assert_eq!(tree.store()[1], 11);
    assert_eq!(tree.store()[2], 100);
}

fn next(state: &mut u64) -> u64 {
    *state = state
        .wrapping_mul(6364136223846793005)
        .wrapping_add(1442695040888963407);
    *state >> 33
}

#[test]
fn query_is_the_fold_of_the_range() {
    let mut state = 2024u64;
    for n in 1..=33usize {
        let items: Vec<u32> = (0..n).map(|_| next(&mut state) as u32).collect();
        let tree = SegTree::new(items.clone(), Sum);
        for first in 0..n {
            for past in first + 1..=n {
                let mut expected = 0u32;
                for x in &items[first..past] {
                    expected = expected.wrapping_add(*x);
                }
                assert_eq!(
                    tree.query(Bound::Included(first), Bound::Excluded(past)),
                    Some(expected)
                );
            }
        }
    }
}

#[test]
fn query_keeps_the_order_of_the_items() {
    let join = MonoidType {
        zero: String::new(),
        op: |a: &String, b: &String| format!("{}{}", a, b),
    };
    let items: Vec<String> = "abcdefghijk".chars().map(|c| c.to_string()).collect();
    let n = items.len();
    let tree = SegTree::new(items, join);
    let text = "abcdefghijk";
    for first in 0..n {
        for past in first + 1..=n {
            assert_eq!(
                tree.query(Bound::Included(first), Bound::Excluded(past)),
                Some(text[first..past].to_string())
            );
        }
    }
}

#[test]
fn update_combines_from_the_right() {
    let join = MonoidType {
        zero: String::new(),
        op: |a: &String, b: &String| format!("{}{}", a, b),
    };
    let items: Vec<String> = "abcde".chars().map(|c| c.to_string()).collect();
    let mut tree = SegTree::new(items, join);
    tree.update(Bound::Included(1), Bound::Included(3), "-".to_string());
    assert_eq!(
        tree.query(Bound::Unbounded, Bound::Unbounded),
        Some("ab-c-d-e".to_string())
    );
    assert_eq!(
        tree.query(Bound::Excluded(0), Bound::Excluded(3)),
        Some("b-c-".to_string())
    );
    tree.update(Bound::Unbounded, Bound::Excluded(2), "+".to_string());
    assert_eq!(
        tree.query(Bound::Unbounded, Bound::Unbounded),
        Some("a+b-+c-d-e".to_string())
    );
}

#[test]
fn update_is_the_fold_into_each_item() {
    let mut state = 7u64;
    for n in 1..=20usize {
        let mut items: Vec<u64> = (0..n).map(|_| next(&mut state)).collect();
        let mut tree = SegTree::new(items.clone(), Sum);
        for _ in 0..10 {
            let first = (next(&mut state) as usize) % n;
            let past = first + 1 + (next(&mut state) as usize) % (n - first);
            let val = next(&mut state);
            tree.update(Bound::Included(first), Bound::Excluded(past), val);
            for x in &mut items[first..past] {
                *x = x.wrapping_add(val);
            }
            let fresh = SegTree::new(items.clone(), Sum);
            assert_eq!(tree.store(), fresh.store());
        }
    }
}

#[test]
fn rejected_range_changes_nothing() {
    let mut tree = SegTree::new(vec![10, 11, 12, 13, 14], Sum);
    let before = tree.store().clone();
    let rejected = [
        (Bound::Included(0), Bound::Excluded(6)),
        (Bound::Included(0), Bound::Included(5)),
        (Bound::Included(5), Bound::Unbounded),
        (Bound::Excluded(4), Bound::Unbounded),
        (Bound::Included(3), Bound::Excluded(3)),
        (Bound::Included(4), Bound::Excluded(2)),
        (Bound::Unbounded, Bound::Excluded(0)),
        (Bound::Excluded(2), Bound::Included(2)),
        (Bound::Unbounded, Bound::Included(usize::MAX)),
        (Bound::Excluded(usize::MAX), Bound::Unbounded),
        (Bound::Included(usize::MAX), Bound::Excluded(usize::MAX)),
    ];
    for (start, end) in rejected {
        assert_eq!(tree.query(start, end), None);
        tree.update(start, end, 100);
        assert_eq!(tree.store(), &before);
    }
    assert_eq!(tree.query(Bound::Unbounded, Bound::Unbounded), Some(60));
}

#[test]
fn every_shape_of_range() {
    let tree = SegTree::new(vec![10, 11, 12, 13, 14], Sum);
    assert_eq!(tree.query(Bound::Included(1), Bound::Excluded(4)), Some(36));
    assert_eq!(tree.query(Bound::Included(1), Bound::Included(4)), Some(50));
    assert_eq!(tree.query(Bound::Excluded(1), Bound::Excluded(4)), Some(25));
    assert_eq!(tree.query(Bound::Excluded(1), Bound::Included(4)), Some(39));
    assert_eq!(tree.query(Bound::Included(2), Bound::Unbounded), Some(39));
    assert_eq!(tree.query(Bound::Excluded(2), Bound::Unbounded), Some(27));
    assert_eq!(tree.query(Bound::Unbounded, Bound::Excluded(2)), Some(21));
    assert_eq!(tree.query(Bound::Unbounded, Bound::Included(2)), Some(33));
    assert_eq!(tree.query(Bound::Unbounded, Bound::Unbounded), Some(60));
    assert_eq!(tree.query(Bound::Included(4), Bound::Included(4)), Some(14));
}

#[test]
fn closure_gives_what_sum_gives() {
    let items = vec![1u32, 2, 1876, 911, 11, 4_000_000_000, 77];
    let add = MonoidType {
        zero: 0u32,
        op: |a: &u32, b: &u32| a.wrapping_add(*b),
    };
    let mut dynamic = SegTree::new(items.clone(), add);
    let mut fixed = SegTree::new(items.clone(), Sum);
    assert_eq!(dynamic.store(), fixed.store());
    for first in 0..items.len() {
        for past in first..=items.len() + 1 {
            let (start, end) = half_open(first, past);
            assert_eq!(dynamic.query(start, end), fixed.query(start, end));
        }
    }
    dynamic.update(Bound::Included(2), Bound::Unbounded, 500_000_000);
    fixed.update(Bound::Included(2), Bound::Unbounded, 500_000_000);
    assert_eq!(dynamic.store(), fixed.store());
}

#[test]
fn product_of_a_range() {
    let mut tree = SegTree::new(vec![1i64, 2, 3, 4, 5], Product);
    assert_eq!(tree.query(Bound::Unbounded, Bound::Unbounded), Some(120));
    assert_eq!(tree.query(Bound::Included(1), Bound::Excluded(4)), Some(24));
    tree.update(Bound::Included(0), Bound::Included(1), -3);
    assert_eq!(tree.query(Bound::Unbounded, Bound::Unbounded), Some(1080));
    assert_eq!(tree.query(Bound::Unbounded, Bound::Excluded(1)), Some(-3));
}

#[test]
fn sums_and_products_wrap_around() {
    let tree = SegTree::new(vec![i32::MAX, 1, 5], Sum);
    assert_eq!(tree.query(Bound::Unbounded, Bound::Excluded(2)), Some(i32::MIN));
    assert_eq!(
        tree.query(Bound::Unbounded, Bound::Unbounded),
        Some(i32::MIN + 5)
    );
    let tree = SegTree::new(vec![1u32 << 31, 2, 3], Product);
    assert_eq!(tree.query(Bound::Unbounded, Bound::Unbounded), Some(0));
    let tree = SegTree::new(vec![usize::MAX, usize::MAX], Product);
    assert_eq!(tree.query(Bound::Unbounded, Bound::Unbounded), Some(1));
    let tree = SegTree::new(vec![isize::MIN, -1], Sum);
    assert_eq!(
        tree.query(Bound::Unbounded, Bound::Unbounded),
        Some(isize::MAX)
    );
}
