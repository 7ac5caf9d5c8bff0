use zterm_terminal::grid::{Cell, CellAttributes, CellStorage, ClusteredLine};
#[test]
fn test_storage_new_vec() {
    let cells = vec![Cell::new("a"), Cell::new("b")];
    let storage = CellStorage::new_vec(cells.clone());

    assert!(storage.is_vec());
    assert_eq!(storage.len(), 2);
}

#[test]
fn test_storage_new_vec_empty() {
    let storage = CellStorage::new_vec_empty();
    assert!(storage.is_vec());
    assert!(storage.is_empty());
}

#[test]
fn test_storage_new_clustered() {
    let cells = vec![Cell::new("a"), Cell::new("b")];
    let storage = CellStorage::new_clustered_from_cells(&cells);

    assert!(storage.is_clustered());
    assert_eq!(storage.len(), 2);
}

#[test]
fn test_storage_to_vec() {
    let cells = vec![Cell::new("a"), Cell::new("b")];
    let storage = CellStorage::new_clustered_from_cells(&cells);
    let result = storage.to_vec();

    assert_eq!(result.len(), 2);
}

#[test]
fn test_storage_get_vec() {
    let cells = vec![Cell::new("a"), Cell::new("b")];
    let storage = CellStorage::new_vec(cells);

    assert!(storage.get(0).is_some());
    assert_eq!(storage.get(0).unwrap().text(), "a");
    assert!(storage.get(2).is_none());
}

#[test]
fn test_storage_get_clustered() {
    let cells = vec![Cell::new("a")];
    let storage = CellStorage::new_clustered_from_cells(&cells);

    // Clustered 存储不支持直接索引
    assert!(storage.get(0).is_none());
}

#[test]
fn test_storage_get_mut() {
    let cells = vec![Cell::new("a")];
    let mut storage = CellStorage::new_vec(cells);

    if let Some(cell) = storage.get_mut(0) {
        let mut attrs = CellAttributes::default();
        attrs.set_bold(true);
        *cell = Cell::new_with_attrs("b", attrs, 1);
    }

    assert_eq!(storage.get(0).unwrap().text(), "b");
}

#[test]
fn test_storage_into_vec() {
    let cells = vec![Cell::new("a")];
    let storage = CellStorage::new_clustered_from_cells(&cells);

    let storage = storage.into_vec();
    assert!(storage.is_vec());
    assert!(storage.get(0).is_some());
}

#[test]
fn test_storage_into_clustered() {
    let cells = vec![Cell::new("a")];
    let storage = CellStorage::new_vec(cells);

    let storage = storage.into_clustered();
    assert!(storage.is_clustered());
}

#[test]
fn test_storage_ensure_vec() {
    let cells = vec![Cell::new("a")];
    let mut storage = CellStorage::new_clustered_from_cells(&cells);

    assert!(storage.is_clustered());
    storage.ensure_vec();
    assert!(storage.is_vec());
    assert!(storage.get(0).is_some());
}

#[test]
fn test_storage_push() {
    let mut storage = CellStorage::new_vec_empty();
    storage.push(Cell::new("a"));
    storage.push(Cell::new("b"));

    assert_eq!(storage.len(), 2);
}

#[test]
fn test_storage_push_clustered() {
    let cells = vec![Cell::new("a")];
    let mut storage = CellStorage::new_clustered_from_cells(&cells);

    // push 会自动转换为 Vec
    storage.push(Cell::new("b"));
    assert!(storage.is_vec());
    assert_eq!(storage.len(), 2);
}

#[test]
fn test_storage_clear() {
    let cells = vec![Cell::new("a"), Cell::new("b")];
    let mut storage = CellStorage::new_vec(cells);

    storage.clear();
    assert!(storage.is_empty());
}

#[test]
fn test_storage_resize() {
    let mut storage = CellStorage::new_vec_empty();
    storage.resize(5, Cell::blank());

    assert_eq!(storage.len(), 5);
}

#[test]
fn test_storage_memory_usage() {
    let cells = vec![Cell::new("a"); 100];
    let vec_storage = CellStorage::new_vec(cells.clone());
    let clustered_storage = CellStorage::new_clustered_from_cells(&cells);

    let vec_usage = vec_storage.memory_usage();
    let clustered_usage = clustered_storage.memory_usage();

    // 都应该有合理的内存使用量
    assert!(vec_usage > 0);
    assert!(clustered_usage > 0);
}

#[test]
fn test_storage_from_vec() {
    let cells = vec![Cell::new("a")];
    let storage: CellStorage = cells.into();
    assert!(storage.is_vec());
}

#[test]
fn test_storage_from_clustered() {
    let clustered = ClusteredLine::new();
    let storage: CellStorage = clustered.into();
    assert!(storage.is_clustered());
}

#[test]
fn test_storage_default() {
    let storage = CellStorage::default();
    assert!(storage.is_vec());
    assert!(storage.is_empty());
}

#[test]
fn test_storage_round_trip() {
    let cells = vec![Cell::new("a"), Cell::new("b"), Cell::new("c")];
    let storage = CellStorage::new_vec(cells.clone());

    // Vec -> Clustered -> Vec
    let storage = storage.into_clustered();
    let storage = storage.into_vec();

    let result = storage.to_vec();
    assert_eq!(result.len(), cells.len());
}
