use zterm_terminal::grid::Color;
#[test]
fn test_color_default() {
    let color = Color::default();
    assert!(color.is_default());
    assert_eq!(color, Color::DefaultForeground);
}

#[test]
fn test_ansi_colors() {
    assert_eq!(Color::BLACK(), Color::Indexed(0));
    assert_eq!(Color::RED(), Color::Indexed(1));
    assert_eq!(Color::BRIGHT_BLACK(), Color::Indexed(8));
    assert_eq!(Color::BRIGHT_WHITE(), Color::Indexed(15));
}

#[test]
fn test_rgb_color() {
    let color = Color::rgb(255, 128, 64);
    assert_eq!(color, Color::Rgb { r: 255, g: 128, b: 64 });
    assert!(!color.is_default());
}

#[test]
fn test_gray() {
    let gray = Color::gray(12);
    assert_eq!(gray, Color::Indexed(244)); // 232 + 12
}
