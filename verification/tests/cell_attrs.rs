use zterm_terminal::grid::{CellFlags, Intensity, SemanticType, UnderlineStyle};
#[test]
fn cell_attrs_test_semantic_type() {
    assert_eq!(SemanticType::default(), SemanticType::Output);
    assert_eq!(SemanticType::Output.to_u8(), 0);
    assert_eq!(SemanticType::Input.to_u8(), 1);
    assert_eq!(SemanticType::Prompt.to_u8(), 2);

    assert_eq!(SemanticType::from_u8(0), SemanticType::Output);
    assert_eq!(SemanticType::from_u8(1), SemanticType::Input);
    assert_eq!(SemanticType::from_u8(2), SemanticType::Prompt);
}

#[test]
fn test_cell_flags() {
    let mut flags = CellFlags::empty();
    assert!(!flags.contains(CellFlags::BOLD()));

    flags.insert(CellFlags::BOLD());
    assert!(flags.contains(CellFlags::BOLD()));

    flags.insert(CellFlags::ITALIC());
    assert!(flags.contains(CellFlags::BOLD() | CellFlags::ITALIC()));

    flags.remove(CellFlags::BOLD());
    assert!(!flags.contains(CellFlags::BOLD()));
    assert!(flags.contains(CellFlags::ITALIC()));
}

#[test]
fn cell_attrs_test_intensity() {
    assert_eq!(Intensity::default(), Intensity::Normal);
    assert_eq!(Intensity::Bold.to_u8(), 1);
    assert_eq!(Intensity::from_u8(2), Intensity::Dim);
}

#[test]
fn test_underline_style() {
    assert_eq!(UnderlineStyle::default(), UnderlineStyle::NoUnderline);
    assert_eq!(UnderlineStyle::Curly.to_u8(), 3);
    assert_eq!(UnderlineStyle::from_u8(4), UnderlineStyle::Dotted);
}
