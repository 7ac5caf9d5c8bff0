use zterm_terminal::grid::{PhysRowIndex, StableRowIndex, VisibleRowIndex};
#[test]
fn test_stable_row_index() {
    let idx = StableRowIndex::new(10);
    assert_eq!(idx.get(), 10);

    let next = idx.next();
    assert_eq!(next.get(), 11);

    let prev = idx.prev();
    assert_eq!(prev.unwrap().get(), 9);

    let zero = StableRowIndex::new(0);
    assert!(zero.prev().is_none());
}

#[test]
fn test_stable_row_index_offset() {
    let idx = StableRowIndex::new(10);

    let plus = idx.offset(5);
    assert_eq!(plus.get(), 15);

    let minus = idx.offset(-3);
    assert_eq!(minus.get(), 7);
}

#[test]
fn test_stable_row_index_checked_offset() {
    let idx = StableRowIndex::new(5);

    assert_eq!(idx.checked_offset(3).unwrap().get(), 8);
    assert_eq!(idx.checked_offset(-2).unwrap().get(), 3);
    assert!(idx.checked_offset(-10).is_none());
}

#[test]
fn test_stable_row_index_ordering() {
    let idx1 = StableRowIndex::new(5);
    let idx2 = StableRowIndex::new(10);

    assert!(idx1 < idx2);
    assert!(idx2 > idx1);
    assert_eq!(idx1, idx1);
}

#[test]
fn test_phys_row_index() {
    let idx = PhysRowIndex::new(42);
    assert_eq!(idx.get(), 42);

    let from_usize: PhysRowIndex = 100.into();
    assert_eq!(from_usize.get(), 100);
}

#[test]
fn test_visible_row_index() {
    let idx = VisibleRowIndex::new(5);
    assert_eq!(idx.get(), 5);

    assert!(idx.is_visible(10)); // 5 在 [0, 10) 内
    assert!(!idx.is_visible(3)); // 5 不在 [0, 3) 内

    let negative = VisibleRowIndex::new(-1);
    assert!(!negative.is_visible(10)); // -1 不可见
}

#[test]
fn test_visible_row_index_boundary() {
    let rows = 24;

    let first = VisibleRowIndex::new(0);
    assert!(first.is_visible(rows));

    let last = VisibleRowIndex::new(23);
    assert!(last.is_visible(rows));

    let out_of_bounds = VisibleRowIndex::new(24);
    assert!(!out_of_bounds.is_visible(rows));
}

#[test]
fn test_display() {
    let idx = StableRowIndex::new(42);
    assert_eq!(idx.to_display_string(), "StableRowIndex(42)");
}
