use zterm_terminal::grid::{Cell, ClusteredLine, Line, SemanticType, ZoneRange};
#[test]
fn test_line_new() {
    let line = Line::new();
    assert!(line.is_empty());
    assert_eq!(line.len(), 0);
    assert_eq!(line.seqno(), 0);
}

#[test]
fn test_line_from_cells() {
    let cells = vec![Cell::new("a"), Cell::new("b"), Cell::new("c")];
    let line = Line::from_cells(cells.clone());

    assert_eq!(line.len(), 3);
    assert!(!line.is_clustered());
}

#[test]
fn test_line_from_clustered() {
    let cells = vec![Cell::new("a"), Cell::new("b")];
    let clustered = ClusteredLine::from_cells(&cells);
    let line = Line::from_clustered(clustered);

    assert_eq!(line.len(), 2);
    assert!(line.is_clustered());
}

#[test]
fn test_line_push() {
    let mut line = Line::new();
    let initial_seqno = line.seqno();

    line.push(Cell::new("a"));
    assert_eq!(line.len(), 1);
    assert_ne!(line.seqno(), initial_seqno); // seqno 应该增加
}

#[test]
fn test_line_append_line() {
    let mut line1 = Line::from_cells(vec![Cell::new("a"), Cell::new("b")]);
    let line2 = Line::from_cells(vec![Cell::new("c"), Cell::new("d")]);

    line1.append_line(&line2);
    assert_eq!(line1.len(), 4);
    assert_eq!(line1.text(), "abcd");
}

#[test]
fn test_line_append_line_with_zones() {
    let mut line1 = Line::from_cells(vec![Cell::new("a"), Cell::new("b")]);
    line1.add_zone(ZoneRange::prompt(0, 2));

    let mut line2 = Line::from_cells(vec![Cell::new("c"), Cell::new("d")]);
    line2.add_zone(ZoneRange::input(0, 2));

    line1.append_line(&line2);
    assert_eq!(line1.zones().len(), 2);

    // 第二个区域应该偏移
    assert_eq!(line1.zones()[1].start, 2);
    assert_eq!(line1.zones()[1].end, 4);
}

#[test]
fn test_line_resize() {
    let mut line = Line::new();
    line.resize(5, Cell::blank());

    assert_eq!(line.len(), 5);
}

#[test]
fn test_line_clear() {
    let mut line = Line::from_cells(vec![Cell::new("a")]);
    line.add_zone(ZoneRange::prompt(0, 1));
    line.set_wrapped(true);

    line.clear();
    assert!(line.is_empty());
    assert!(line.zones().is_empty());
    assert!(!line.is_wrapped());
}

#[test]
fn test_line_wrapped_flag() {
    let mut line = Line::new();
    assert!(!line.is_wrapped());

    line.set_wrapped(true);
    assert!(line.is_wrapped());
}

#[test]
fn test_line_hyperlink_flag() {
    let mut line = Line::new();
    assert!(!line.has_hyperlink());

    line.set_has_hyperlink(true);
    assert!(line.has_hyperlink());
}

#[test]
fn test_line_seqno_increment() {
    let mut line = Line::new();
    let initial = line.seqno();

    line.increment_seqno();
    assert_eq!(line.seqno(), initial + 1);

    line.increment_seqno();
    assert_eq!(line.seqno(), initial + 2);
}

#[test]
fn test_line_add_zone() {
    let mut line = Line::from_cells(vec![Cell::new("a"); 10]);

    line.add_zone(ZoneRange::prompt(0, 3));
    line.add_zone(ZoneRange::input(3, 7));
    line.add_zone(ZoneRange::output(7, 10));

    assert_eq!(line.zones().len(), 3);
}

#[test]
fn test_line_semantic_type_at() {
    let mut line = Line::from_cells(vec![Cell::new("a"); 10]);
    line.add_zone(ZoneRange::prompt(0, 3));
    line.add_zone(ZoneRange::input(3, 7));

    assert_eq!(line.semantic_type_at(0), Some(SemanticType::Prompt));
    assert_eq!(line.semantic_type_at(5), Some(SemanticType::Input));
    assert_eq!(line.semantic_type_at(9), None);
}

#[test]
fn test_line_zone_at() {
    let mut line = Line::from_cells(vec![Cell::new("a"); 10]);
    let zone = ZoneRange::prompt(2, 5);
    line.add_zone(zone);

    assert!(line.zone_at(1).is_none());
    assert!(line.zone_at(3).is_some());
    assert_eq!(line.zone_at(3).unwrap(), &zone);
}

#[test]
fn test_line_zones_in_range() {
    let mut line = Line::from_cells(vec![Cell::new("a"); 20]);
    line.add_zone(ZoneRange::prompt(0, 5));
    line.add_zone(ZoneRange::input(5, 10));
    line.add_zone(ZoneRange::output(15, 20));

    let zones = line.zones_in_range(3, 12);
    assert_eq!(zones.len(), 2); // prompt 和 input
}

#[test]
fn test_line_consolidate_zones() {
    let mut line = Line::from_cells(vec![Cell::new("a"); 10]);
    line.add_zone(ZoneRange::prompt(0, 3));
    line.add_zone(ZoneRange::prompt(3, 6)); // 相邻且类型相同
    line.add_zone(ZoneRange::input(6, 10));

    line.consolidate_zones();
    assert_eq!(line.zones().len(), 2); // prompt 应该合并

    assert_eq!(line.zones()[0].start, 0);
    assert_eq!(line.zones()[0].end, 6);
    assert_eq!(line.zones()[0].semantic_type, SemanticType::Prompt);
}

#[test]
fn test_line_double_click_range() {
    let cells = vec![
        Cell::new("h"),
        Cell::new("e"),
        Cell::new("l"),
        Cell::new("l"),
        Cell::new("o"),
        Cell::new(" "),
        Cell::new("w"),
        Cell::new("o"),
        Cell::new("r"),
        Cell::new("l"),
        Cell::new("d"),
    ];
    let line = Line::from_cells(cells);

    // 点击 "hello" 中的 'l'
    let range = line.double_click_range(3, " \t");
    assert_eq!(range, Some((0, 5)));

    // 点击 "world" 中的 'o'
    let range = line.double_click_range(7, " \t");
    assert_eq!(range, Some((6, 11)));
}

#[test]
fn test_line_text() {
    let cells = vec![Cell::new("h"), Cell::new("e"), Cell::new("l"), Cell::new("l"), Cell::new("o")];
    let line = Line::from_cells(cells);

    assert_eq!(line.text(), "hello");
}

#[test]
fn test_line_text_range() {
    let cells = vec![Cell::new("h"), Cell::new("e"), Cell::new("l"), Cell::new("l"), Cell::new("o")];
    let line = Line::from_cells(cells);

    assert_eq!(line.text_range(1, 4), "ell");
}

#[test]
fn test_line_memory_usage() {
    let line = Line::from_cells(vec![Cell::new("a"); 100]);
    let usage = line.memory_usage();

    assert!(usage > std::mem::size_of::<Line>());
}

#[test]
fn test_line_into_clustered() {
    let cells = vec![Cell::new("a"); 10];
    let line = Line::from_cells(cells);

    assert!(!line.is_clustered());
    let line = line.into_clustered();
    assert!(line.is_clustered());
}

#[test]
fn test_line_ensure_vec() {
    let cells = vec![Cell::new("a")];
    let clustered = ClusteredLine::from_cells(&cells);
    let mut line = Line::from_clustered(clustered);

    assert!(line.is_clustered());
    line.ensure_vec();
    assert!(!line.is_clustered());
}

#[test]
fn test_line_get_set() {
    let cells = vec![Cell::new("a"), Cell::new("b"), Cell::new("c")];
    let mut line = Line::from_cells(cells);

    assert_eq!(line.get(1).unwrap().text(), "b");

    line.set_cell(1, Cell::new("x"));
    assert_eq!(line.get(1).unwrap().text(), "x");
}

#[test]
fn test_line_extend() {
    let mut line = Line::new();
    let cells = vec![Cell::new("a"), Cell::new("b"), Cell::new("c")];

    line.extend(cells);
    assert_eq!(line.len(), 3);
    assert_eq!(line.text(), "abc");
}

#[test]
fn line_get_reads_clustered_line_as_cells() {
    let cells = vec![Cell::new("a"), Cell::new("b")];
    let line = Line::from_clustered(ClusteredLine::from_cells(&cells));
    assert!(line.is_clustered());
    assert_eq!(line.get(0).map(|c| c.text().to_string()), Some("a".to_string()));
    assert_eq!(line.get(1).map(|c| c.text().to_string()), Some("b".to_string()));
    assert!(line.get(2).is_none());
    assert!(line.is_clustered());
}

#[test]
fn line_double_click_on_delimiter_selects_nothing() {
    let cells: Vec<Cell> = "hello world".chars().map(|c| Cell::new(&c.to_string())).collect();
    let line = Line::from_cells(cells);
    assert_eq!(line.double_click_range(5, " \t"), None);
    assert_eq!(line.double_click_range(4, " \t"), Some((0, 5)));
    assert_eq!(line.double_click_range(6, " \t"), Some((6, 11)));
    assert_eq!(line.double_click_range(11, " \t"), None);
}
