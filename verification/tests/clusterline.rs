use zterm_terminal::grid::clusterline::FixedBitSet;
use zterm_terminal::grid::{Cell, CellAttributes, ClusteredLine};
#[test]
fn test_clustered_line_new() {
    let line = ClusteredLine::new();
    assert!(line.is_empty());
    assert_eq!(line.len(), 0);
    assert_eq!(line.cluster_count(), 0);
}

#[test]
fn test_clustered_line_append_single_cell() {
    let mut line = ClusteredLine::new();
    let cell = Cell::new("a");

    line.append_cell(&cell);
    assert_eq!(line.len(), 1);
    assert_eq!(line.cluster_count(), 1);
    assert_eq!(line.text(), "a");
}

#[test]
fn test_clustered_line_append_same_attrs() {
    let mut line = ClusteredLine::new();
    let cell1 = Cell::new("a");
    let cell2 = Cell::new("b");
    let cell3 = Cell::new("c");

    line.append_cell(&cell1);
    line.append_cell(&cell2);
    line.append_cell(&cell3);

    assert_eq!(line.len(), 3);
    assert_eq!(line.cluster_count(), 1); // 应该合并为一个聚类
    assert_eq!(line.text(), "abc");
}

#[test]
fn test_clustered_line_append_different_attrs() {
    let mut line = ClusteredLine::new();

    let cell1 = Cell::new("a");

    let mut attrs = CellAttributes::default();
    attrs.set_bold(true);
    let cell2 = Cell::new_with_attrs("b", attrs, 1);

    line.append_cell(&cell1);
    line.append_cell(&cell2);

    assert_eq!(line.len(), 2);
    assert_eq!(line.cluster_count(), 2); // 不同属性，两个聚类
    assert_eq!(line.text(), "ab");
}

#[test]
fn test_clustered_line_double_width() {
    let mut line = ClusteredLine::new();
    let cell = Cell::new_with_attrs("中", CellAttributes::default(), 2);

    line.append_cell(&cell);
    assert_eq!(line.len(), 2); // 双宽字符占 2 个单元格
    assert!(line.has_double_wide());
}

#[test]
fn test_clustered_line_from_cells() {
    let cells = vec![Cell::new("a"), Cell::new("b"), Cell::new("c")];
    let line = ClusteredLine::from_cells(&cells);

    assert_eq!(line.len(), 3);
    assert_eq!(line.cluster_count(), 1);
    assert_eq!(line.text(), "abc");
}

#[test]
fn test_clustered_line_to_cells() {
    let cells = vec![Cell::new("a"), Cell::new("b"), Cell::new("c")];
    let line = ClusteredLine::from_cells(&cells);
    let restored = line.to_cells();

    assert_eq!(cells.len(), restored.len());
    for (original, restored) in cells.iter().zip(restored.iter()) {
        assert_eq!(original.text(), restored.text());
        assert_eq!(original.attrs(), restored.attrs());
    }
}

#[test]
fn test_clustered_line_round_trip() {
    let mut cells = Vec::new();

    // 普通字符
    cells.push(Cell::new("a"));
    cells.push(Cell::new("b"));

    // 粗体字符
    let mut attrs = CellAttributes::default();
    attrs.set_bold(true);
    cells.push(Cell::new_with_attrs("c", attrs, 1));

    // 双宽字符
    cells.push(Cell::new_with_attrs("中", CellAttributes::default(), 2));

    let line = ClusteredLine::from_cells(&cells);
    let restored = line.to_cells();

    assert_eq!(cells.len(), restored.len());
}

#[test]
fn test_clustered_line_memory_efficiency() {
    // 创建 100 个相同属性的单元格
    let cells: Vec<_> = (0..100).map(|_| Cell::new("x")).collect();
    let line = ClusteredLine::from_cells(&cells);

    // 应该只有一个聚类
    assert_eq!(line.cluster_count(), 1);
    assert_eq!(line.clusters()[0].width(), 100);
}

#[test]
fn test_clustered_line_alternating_attrs() {
    let mut cells = Vec::new();
    let mut attrs1 = CellAttributes::default();
    let mut attrs2 = CellAttributes::default();
    attrs2.set_bold(true);

    for i in 0..10 {
        if i % 2 == 0 {
            cells.push(Cell::new_with_attrs("a", attrs1.clone(), 1));
        } else {
            cells.push(Cell::new_with_attrs("b", attrs2.clone(), 1));
        }
    }

    let line = ClusteredLine::from_cells(&cells);
    assert_eq!(line.cluster_count(), 10); // 交替属性，10 个聚类
}

#[test]
fn test_clustered_line_memory_usage() {
    let line = ClusteredLine::new();
    let usage = line.memory_usage();

    // 应该至少等于结构体大小
    assert!(usage >= std::mem::size_of::<ClusteredLine>());
}

#[test]
fn test_clustered_line_with_capacity() {
    let line = ClusteredLine::with_capacity(100);
    assert!(line.is_empty());
    assert_eq!(line.len(), 0);
}

#[test]
fn test_fixed_bitset() {
    let mut bitset = FixedBitSet::with_capacity(10);
    assert_eq!(bitset.len(), 10);
    assert!(!bitset.contains(0));

    bitset.insert(0);
    bitset.insert(5);
    bitset.insert(9);

    assert!(bitset.contains(0));
    assert!(!bitset.contains(1));
    assert!(bitset.contains(5));
    assert!(bitset.contains(9));
}

#[test]
fn test_clustered_line_mixed_widths() {
    let mut cells = Vec::new();
    cells.push(Cell::new("a")); // 宽度 1
    cells.push(Cell::new_with_attrs("中", CellAttributes::default(), 2)); // 宽度 2
    cells.push(Cell::new("b")); // 宽度 1

    let line = ClusteredLine::from_cells(&cells);
    assert_eq!(line.len(), 4); // 1 + 2 + 1 = 4
}

#[test]
fn test_clustered_line_empty_text() {
    let mut line = ClusteredLine::new();
    let cell = Cell::blank();
    line.append_cell(&cell);

    assert_eq!(line.len(), 1);
    assert_eq!(line.text(), " "); // 空白单元格应该有空格
}
