use zterm_terminal::grid::{Cell, CellAttributes, Color, SemanticType};
#[test]
fn test_blank_cell() {
    let cell = Cell::blank();
    assert_eq!(cell.str(), " ");
    assert_eq!(cell.width(), 1);
    assert!(cell.is_blank());
    assert!(!cell.is_double_width());
}

#[test]
fn test_new_cell() {
    let cell = Cell::new("a");
    assert_eq!(cell.text(), "a");
    assert_eq!(cell.width(), 1);
    assert!(!cell.is_blank());
}

#[test]
fn test_double_width() {
    let cell = Cell::new("中");
    assert_eq!(cell.text(), "中");
    assert_eq!(cell.width(), 2);
    assert!(cell.is_double_width());
}

#[test]
fn test_with_attrs() {
    let mut attrs = CellAttributes::default();
    attrs.set_bold(true);
    attrs.foreground = Color::Indexed(1); // RED

    let cell = Cell::with_attrs_auto("a", attrs.clone());
    assert_eq!(cell.text(), "a");
    assert!(cell.attrs.is_bold());
    assert_eq!(cell.attrs.foreground, Color::Indexed(1));
}

#[test]
fn cell_test_reset() {
    let mut cell = Cell::new("a");
    cell.attrs.set_bold(true);

    cell.reset();
    assert_eq!(cell.text(), " ");
    assert!(!cell.attrs.is_bold());
    assert!(cell.is_blank());
}

#[test]
fn test_reset_with_attrs() {
    let mut attrs = CellAttributes::default();
    attrs.background = Color::Indexed(4); // BLUE

    let mut cell = Cell::new("a");
    cell.reset_with_attrs(attrs.clone());

    assert_eq!(cell.text(), " ");
    assert_eq!(cell.attrs.background, Color::Indexed(4));
}

#[test]
fn test_from_char() {
    let cell_a = Cell::from_char('a');
    assert_eq!(cell_a.text(), "a");
    assert_eq!(cell_a.width(), 1);

    let cell_chinese = Cell::from_char('中');
    assert_eq!(cell_chinese.text(), "中");
    assert_eq!(cell_chinese.width(), 2);
}

#[test]
fn cell_test_semantic_type() {
    let mut attrs = CellAttributes::default();
    attrs.set_semantic_type(SemanticType::Prompt);

    let cell = Cell::with_attrs_auto("$", attrs);
    assert_eq!(cell.attrs.semantic_type(), SemanticType::Prompt);
}

#[test]
fn test_clone_cell() {
    let cell1 = Cell::from_char('x');
    let cell2 = cell1.clone_cell();

    assert_eq!(cell1.text(), cell2.text());
    assert_eq!(cell1.width(), cell2.width());
}

#[test]
fn test_with_foreground() {
    let cell = Cell::with_foreground("a", Color::Indexed(2)); // GREEN
    assert_eq!(cell.attrs.foreground, Color::Indexed(2));
}
