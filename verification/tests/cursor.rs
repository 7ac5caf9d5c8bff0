use zterm_terminal::grid::{CellAttributes, Cursor, CursorShape};
#[test]
fn test_cursor_default() {
    let cursor = Cursor::default();
    assert_eq!(cursor.x, 0);
    assert_eq!(cursor.y, 0);
    assert_eq!(cursor.shape, CursorShape::Block);
    assert!(cursor.visible);
    assert!(cursor.blink);
}

#[test]
fn test_cursor_set_position() {
    let mut cursor = Cursor::new();
    cursor.set_position(10, 5);
    assert_eq!(cursor.position(), (10, 5));
}

#[test]
fn test_cursor_move_right() {
    let mut cursor = Cursor::new();
    cursor.move_right(5, 80);
    assert_eq!(cursor.x, 5);

    cursor.move_right(100, 80);
    assert_eq!(cursor.x, 79); // 限制在 max_cols - 1
}

#[test]
fn test_cursor_move_left() {
    let mut cursor = Cursor::new();
    cursor.x = 10;

    cursor.move_left(3);
    assert_eq!(cursor.x, 7);

    cursor.move_left(100);
    assert_eq!(cursor.x, 0); // 不会变成负数
}

#[test]
fn test_cursor_move_down() {
    let mut cursor = Cursor::new();
    cursor.move_down(5, 24);
    assert_eq!(cursor.y, 5);

    cursor.move_down(100, 24);
    assert_eq!(cursor.y, 23); // 限制在 max_rows - 1
}

#[test]
fn test_cursor_move_up() {
    let mut cursor = Cursor::new();
    cursor.y = 10;

    cursor.move_up(3);
    assert_eq!(cursor.y, 7);

    cursor.move_up(100);
    assert_eq!(cursor.y, 0);
}

#[test]
fn test_cursor_carriage_return() {
    let mut cursor = Cursor::new();
    cursor.x = 50;

    cursor.carriage_return();
    assert_eq!(cursor.x, 0);
}

#[test]
fn test_cursor_line_feed() {
    let mut cursor = Cursor::new();
    cursor.line_feed(24);
    assert_eq!(cursor.y, 1);

    cursor.y = 23;
    cursor.line_feed(24);
    assert_eq!(cursor.y, 23); // 不超过底部
}

#[test]
fn test_cursor_home() {
    let mut cursor = Cursor::new();
    cursor.x = 50;
    cursor.y = 10;

    cursor.home();
    assert_eq!(cursor.position(), (0, 0));
}

#[test]
fn test_cursor_clamp() {
    let mut cursor = Cursor::new();
    cursor.x = 100;
    cursor.y = 100;

    cursor.clamp(80, 24);
    assert_eq!(cursor.x, 79);
    assert_eq!(cursor.y, 23);
}

#[test]
fn test_cursor_reset() {
    let mut cursor = Cursor::new();
    cursor.x = 50;
    cursor.y = 10;
    cursor.visible = false;

    cursor.reset();
    assert_eq!(cursor.x, 0);
    assert_eq!(cursor.y, 0);
    assert!(cursor.visible);
}

#[test]
fn cursor_test_cursor_shape() {
    let mut cursor = Cursor::new();
    assert_eq!(cursor.shape, CursorShape::Block);

    cursor.set_shape(CursorShape::Bar);
    assert_eq!(cursor.shape, CursorShape::Bar);

    cursor.set_shape(CursorShape::Underline);
    assert_eq!(cursor.shape, CursorShape::Underline);
}

#[test]
fn cursor_test_cursor_visibility() {
    let mut cursor = Cursor::new();
    assert!(cursor.visible);

    cursor.set_visible(false);
    assert!(!cursor.visible);
}

#[test]
fn test_cursor_attrs() {
    let mut cursor = Cursor::new();
    let mut attrs = CellAttributes::default();
    attrs.set_bold(true);

    cursor.set_attrs(attrs.clone());
    assert_eq!(cursor.attrs(), &attrs);
    assert!(cursor.attrs().is_bold());
}
