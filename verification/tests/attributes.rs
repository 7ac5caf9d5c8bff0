use std::mem::size_of;
use zterm_terminal::grid::{CellAttributes, CellFlags, Color, Intensity, SemanticType, UnderlineStyle};
#[test]
fn test_default_attributes() {
    let attrs = CellAttributes::default();
    assert_eq!(attrs.intensity(), Intensity::Normal);
    assert_eq!(attrs.underline(), UnderlineStyle::NoUnderline);
    assert_eq!(attrs.semantic_type(), SemanticType::Output);
    assert!(!attrs.italic());
    assert!(!attrs.reverse());
    assert_eq!(attrs.foreground, Color::DefaultForeground);
    assert_eq!(attrs.background, Color::DefaultBackground);
}

#[test]
fn attributes_test_intensity() {
    let mut attrs = CellAttributes::new();
    assert!(!attrs.is_bold());

    attrs.set_bold(true);
    assert!(attrs.is_bold());
    assert_eq!(attrs.intensity(), Intensity::Bold);

    attrs.set_dim(true);
    assert!(attrs.is_dim());
    assert!(!attrs.is_bold());
}

#[test]
fn test_underline() {
    let mut attrs = CellAttributes::new();
    assert!(!attrs.has_underline());

    attrs.set_underline(UnderlineStyle::Single);
    assert!(attrs.has_underline());
    assert_eq!(attrs.underline(), UnderlineStyle::Single);

    attrs.set_underline(UnderlineStyle::Curly);
    assert_eq!(attrs.underline(), UnderlineStyle::Curly);
}

#[test]
fn test_flags() {
    let mut attrs = CellAttributes::new();

    attrs.set_italic(true);
    assert!(attrs.italic());

    attrs.set_reverse(true);
    assert!(attrs.reverse());
    assert!(attrs.italic());

    attrs.set_italic(false);
    assert!(!attrs.italic());
    assert!(attrs.reverse());
}

#[test]
fn attributes_test_semantic_type() {
    let mut attrs = CellAttributes::new();
    assert_eq!(attrs.semantic_type(), SemanticType::Output);

    attrs.set_semantic_type(SemanticType::Prompt);
    assert_eq!(attrs.semantic_type(), SemanticType::Prompt);

    attrs.set_semantic_type(SemanticType::Input);
    assert_eq!(attrs.semantic_type(), SemanticType::Input);
}

#[test]
fn test_colors() {
    let mut attrs = CellAttributes::new();
    attrs.foreground = Color::RED();
    attrs.background = Color::BLUE();
    attrs.underline_color = Some(Color::GREEN());

    assert_eq!(attrs.foreground, Color::RED());
    assert_eq!(attrs.background, Color::BLUE());
    assert_eq!(attrs.underline_color, Some(Color::GREEN()));
}

#[test]
fn test_to_from_flags() {
    let flags = CellFlags::BOLD() | CellFlags::ITALIC() | CellFlags::UNDERLINE();
    let attrs = CellAttributes::from_flags(flags);

    assert!(attrs.is_bold());
    assert!(attrs.italic());
    assert!(attrs.has_underline());

    let converted_flags = attrs.to_flags();
    assert!(converted_flags.contains(CellFlags::BOLD()));
    assert!(converted_flags.contains(CellFlags::ITALIC()));
    assert!(converted_flags.contains(CellFlags::UNDERLINE()));
}

#[test]
fn attributes_test_reset() {
    let mut attrs = CellAttributes::new();
    attrs.set_bold(true);
    attrs.set_italic(true);
    attrs.foreground = Color::RED();

    attrs.reset();
    assert!(!attrs.is_bold());
    assert!(!attrs.italic());
    assert_eq!(attrs.foreground, Color::RED()); // 颜色保留

    attrs.reset_all();
    assert_eq!(attrs.foreground, Color::DefaultForeground); // 颜色也重置
}

#[test]
fn test_clone_sgr_only() {
    let mut attrs = CellAttributes::new();
    attrs.set_bold(true);
    attrs.foreground = Color::RED();
    attrs.background = Color::BLUE();
    attrs.set_semantic_type(SemanticType::Prompt);
    attrs.set_wrapped(true);

    let cloned = attrs.clone_sgr_only();
    assert!(cloned.is_bold());
    assert_eq!(cloned.foreground, Color::RED());
    assert_eq!(cloned.background, Color::BLUE());
    assert_eq!(cloned.semantic_type(), SemanticType::Output); // 语义类型被重置
    assert!(!cloned.wrapped()); // 包装标志被重置
}

#[test]
fn test_bitfield_size() {
    // 验证结构体大小合理

    let size = size_of::<CellAttributes>();
    // u32 (4) + Color (2 * ?) + Option<Color> (? + 1)
    // 应该小于 64 字节
    assert!(size < 64, "CellAttributes size: {} bytes", size);
}

#[test]
fn flags_round_trip_keeps_sgr_state() {
    let mut a = CellAttributes::default();
    a.set_bold(true);
    a.set_italic(true);
    a.set_underline(UnderlineStyle::Double);
    a.set_reverse(true);
    a.set_wrapped(true);
    let back = CellAttributes::from_flags(a.to_flags());
    assert!(back.is_bold());
    assert!(back.italic());
    assert_eq!(back.underline(), UnderlineStyle::Double);
    assert!(back.reverse());
    assert!(back.wrapped());
    assert_eq!(back, a);
}

#[test]
fn clone_sgr_only_twice_is_once() {
    let mut a = CellAttributes::default();
    a.set_bold(true);
    a.set_wrapped(true);
    a.set_semantic_type(SemanticType::Input);
    let once = a.clone_sgr_only();
    let twice = once.clone_sgr_only();
    assert_eq!(once, twice);
    assert_eq!(twice.semantic_type(), SemanticType::Output);
    assert!(!twice.wrapped());
}
