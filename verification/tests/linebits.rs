use std::mem::size_of;
use zterm_terminal::grid::LineBits;
#[test]
fn test_default_linebits() {
    let bits = LineBits::default();
    assert!(bits.is_empty());
    assert!(!bits.has_hyperlink());
    assert!(!bits.is_wrapped());
    assert!(!bits.is_double_width());
}

#[test]
fn test_hyperlink_flags() {
    let mut bits = LineBits::new();
    assert!(!bits.has_hyperlink());

    bits.set_has_hyperlink(true);
    assert!(bits.has_hyperlink());

    bits.set_has_hyperlink(false);
    assert!(!bits.has_hyperlink());
}

#[test]
fn test_implicit_hyperlinks() {
    let mut bits = LineBits::new();

    bits.set_scanned_implicit_hyperlinks(true);
    assert!(bits.scanned_implicit_hyperlinks());

    bits.set_has_implicit_hyperlinks(true);
    assert!(bits.has_implicit_hyperlinks());
    assert!(bits.scanned_implicit_hyperlinks());
}

#[test]
fn test_double_width_height() {
    let mut bits = LineBits::new();

    bits.set_double_width(true);
    assert!(bits.is_double_width());

    bits.set_double_height_top(true);
    assert!(bits.is_double_height_top());
    assert!(!bits.is_double_height_bottom());

    bits.set_double_height_bottom(true);
    assert!(bits.is_double_height_bottom());
}

#[test]
fn test_bidi_flags() {
    let mut bits = LineBits::new();

    bits.set_bidi_enabled(true);
    assert!(bits.bidi_enabled());

    bits.set_rtl(true);
    assert!(bits.is_rtl());

    bits.set_auto_detect_direction(true);
    assert!(bits.auto_detect_direction());
}

#[test]
fn test_wrapped_flag() {
    let mut bits = LineBits::new();
    assert!(!bits.is_wrapped());

    bits.set_wrapped(true);
    assert!(bits.is_wrapped());

    bits.set_wrapped(false);
    assert!(!bits.is_wrapped());
}

#[test]
fn test_multiple_flags() {
    let mut bits = LineBits::new();
    bits.set_has_hyperlink(true);
    bits.set_wrapped(true);
    bits.set_double_width(true);

    assert!(bits.has_hyperlink());
    assert!(bits.is_wrapped());
    assert!(bits.is_double_width());
    assert!(!bits.is_rtl());
}

#[test]
fn test_bitflags_operations() {
    let mut bits = LineBits::HAS_HYPERLINK() | LineBits::WRAPPED();
    assert!(bits.contains(LineBits::HAS_HYPERLINK()));
    assert!(bits.contains(LineBits::WRAPPED()));
    assert!(!bits.contains(LineBits::DOUBLE_WIDTH()));

    bits.remove(LineBits::HAS_HYPERLINK());
    assert!(!bits.contains(LineBits::HAS_HYPERLINK()));
    assert!(bits.contains(LineBits::WRAPPED()));
}

#[test]
fn test_memory_size() {

    assert_eq!(size_of::<LineBits>(), 2); // u16 = 2 bytes
}
