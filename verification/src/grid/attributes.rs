//! Cell attributes: the SGR state of a cell, packed in a bit field, plus
//! its colors.
//!
//! Bit layout of the packed field:
//! bits 0-1 intensity, bits 2-4 underline style, bits 5-6 blink, bit 7
//! italic, bit 8 reverse, bit 9 strikethrough, bit 10 invisible, bit 11
//! wrapped, bit 12 overline, bits 13-14 semantic type, the rest reserved.
use vstd::prelude::*;

use super::cell_attrs::{
    intensity_code, intensity_of, lemma_intensity_round_trip, lemma_semantic_type_round_trip,
    lemma_underline_style_round_trip, semantic_type_code, semantic_type_of, underline_style_code,
    underline_style_of, CellFlags, Intensity, SemanticType, UnderlineStyle,
};
use super::color::Color;

verus! {

/// The `mask`-wide field at `shift` of `bits`.
pub open spec fn bit_field(bits: u32, shift: u32, mask: u32) -> u32 {
    (bits >> shift) & mask
}

/// `bits` with the `mask`-wide field at `shift` replaced by `value`.
pub open spec fn with_bit_field(bits: u32, shift: u32, mask: u32, value: u32) -> u32 {
    (bits & !(mask << shift)) | ((value & mask) << shift)
}

/// Whether flag bit `bit` of `bits` is set.
pub open spec fn bit_flag(bits: u32, bit: u32) -> bool {
    (bits & (1u32 << bit)) != 0
}

/// `bits` with flag bit `bit` set to `value`.
pub open spec fn with_bit_flag(bits: u32, bit: u32, value: bool) -> u32 {
    if value {
        bits | (1u32 << bit)
    } else {
        bits & !(1u32 << bit)
    }
}

/// The attributes of a cell.
#[derive(Debug, Clone, PartialEq, Eq, Structural)]
pub struct CellAttributes {
    attributes: u32,
    /// Foreground color.
    pub foreground: Color,
    /// Background color.
    pub background: Color,
    /// Underline color, if one was set.
    pub underline_color: Option<Color>,
}

impl CellAttributes {
    /// The packed attribute bits.
    pub closed spec fn attr_bits(&self) -> u32 {
        self.attributes
    }

    /// The foreground color.
    pub closed spec fn fg(&self) -> Color {
        self.foreground
    }

    /// The background color.
    pub closed spec fn bg(&self) -> Color {
        self.background
    }

    /// The underline color.
    pub closed spec fn ul_color(&self) -> Option<Color> {
        self.underline_color
    }

    /// Intensity, as decoded from bits 0-1.
    pub open spec fn spec_intensity(&self) -> Intensity {
        intensity_of(bit_field(self.attr_bits(), 0, 3) as u8)
    }

    /// Underline style, as decoded from bits 2-4.
    pub open spec fn spec_underline(&self) -> UnderlineStyle {
        underline_style_of(bit_field(self.attr_bits(), 2, 7) as u8)
    }

    /// Semantic type, as decoded from bits 13-14.
    pub open spec fn spec_semantic_type(&self) -> SemanticType {
        semantic_type_of(bit_field(self.attr_bits(), 13, 3) as u8)
    }

    pub open spec fn spec_italic(&self) -> bool {
        bit_flag(self.attr_bits(), 7)
    }

    pub open spec fn spec_reverse(&self) -> bool {
        bit_flag(self.attr_bits(), 8)
    }

    pub open spec fn spec_strikethrough(&self) -> bool {
        bit_flag(self.attr_bits(), 9)
    }

    pub open spec fn spec_invisible(&self) -> bool {
        bit_flag(self.attr_bits(), 10)
    }

    pub open spec fn spec_wrapped(&self) -> bool {
        bit_flag(self.attr_bits(), 11)
    }

    pub open spec fn spec_overline(&self) -> bool {
        bit_flag(self.attr_bits(), 12)
    }

    /// `self` and `other` differ at most in the packed bits selected by `mask`.
    pub open spec fn same_except(&self, other: &CellAttributes, mask: u32) -> bool {
        &&& self.attr_bits() & !mask == other.attr_bits() & !mask
        &&& self.fg() == other.fg()
        &&& self.bg() == other.bg()
        &&& self.ul_color() == other.ul_color()
    }

    /// These attributes with the packed bits replaced by `bits`.
    pub closed spec fn with_bits(self, bits: u32) -> CellAttributes {
        CellAttributes { attributes: bits, ..self }
    }

    /// These attributes with foreground color `c`.
    pub closed spec fn with_fg(self, c: Color) -> CellAttributes {
        CellAttributes { foreground: c, ..self }
    }

    /// These attributes with background color `c`.
    pub closed spec fn with_bg(self, c: Color) -> CellAttributes {
        CellAttributes { background: c, ..self }
    }

    /// What `with_bits`, `with_fg` and `with_bg` change and keep.
    pub proof fn lemma_with(self, bits: u32, c: Color)
        ensures
            self.with_bits(bits).attr_bits() == bits,
            self.with_bits(bits).fg() == self.fg() && self.with_bits(bits).bg() == self.bg()
                && self.with_bits(bits).ul_color() == self.ul_color(),
            self.with_fg(c).attr_bits() == self.attr_bits() && self.with_fg(c).fg() == c
                && self.with_fg(c).bg() == self.bg() && self.with_fg(c).ul_color() == self.ul_color(),
            self.with_bg(c).attr_bits() == self.attr_bits() && self.with_bg(c).bg() == c
                && self.with_bg(c).fg() == self.fg() && self.with_bg(c).ul_color() == self.ul_color(),
    {
    }

    /// Attributes with the same bits and colors are the same.
    pub proof fn lemma_eq(a: CellAttributes, b: CellAttributes)
        requires
            a.attr_bits() == b.attr_bits(),
            a.fg() == b.fg(),
            a.bg() == b.bg(),
            a.ul_color() == b.ul_color(),
        ensures
            a == b,
    {
    }

    /// The default attributes: no bit set, default colors, no underline color.
    pub closed spec fn spec_default() -> CellAttributes {
        CellAttributes {
            attributes: 0,
            foreground: Color::DefaultForeground,
            background: Color::DefaultBackground,
            underline_color: None,
        }
    }

    /// What the fields of the default attributes are.
    pub proof fn lemma_default_fields()
        ensures
            Self::spec_default().attr_bits() == 0,
            Self::spec_default().fg() == Color::DefaultForeground,
            Self::spec_default().bg() == Color::DefaultBackground,
            Self::spec_default().ul_color() == None::<Color>,
    {
    }

    /// Two attribute values with equal fields are equal.
    pub proof fn lemma_fields_equal(a: CellAttributes, b: CellAttributes)
        requires
            a.attr_bits() == b.attr_bits(),
            a.fg() == b.fg(),
            a.bg() == b.bg(),
            a.ul_color() == b.ul_color(),
        ensures
            a == b,
    {
    }
}

impl Default for CellAttributes {
    fn default() -> (a: CellAttributes)
        ensures
            a == CellAttributes::spec_default(),
    {
        CellAttributes {
            attributes: 0,
            foreground: Color::DefaultForeground,
            background: Color::DefaultBackground,
            underline_color: None,
        }
    }
}

impl CellAttributes {
    /// The default attributes.
    pub fn new() -> (a: CellAttributes)
        ensures
            a == CellAttributes::spec_default(),
    {
        CellAttributes::default()
    }

    /// A copy of these attributes.
    pub fn copy(&self) -> (a: CellAttributes)
        ensures
            a == *self,
    {
        CellAttributes {
            attributes: self.attributes,
            foreground: self.foreground,
            background: self.background,
            underline_color: self.underline_color,
        }
    }

    /// Whether these are equal to `other`.
    pub fn equals(&self, other: &CellAttributes) -> (r: bool)
        ensures
            r == (*self == *other),
    {
        self.attributes == other.attributes && self.foreground == other.foreground
            && self.background == other.background && match (self.underline_color, other.underline_color) {
            (None, None) => true,
            (Some(a), Some(b)) => a == b,
            _ => false,
        }
    }

    /// The foreground color.
    pub fn foreground(&self) -> (c: Color)
        ensures
            c == self.fg(),
    {
        self.foreground
    }

    /// The background color.
    pub fn background(&self) -> (c: Color)
        ensures
            c == self.bg(),
    {
        self.background
    }

    /// The underline color.
    pub fn underline_color(&self) -> (c: Option<Color>)
        ensures
            c == self.ul_color(),
    {
        self.underline_color
    }

    // ---------- packed fields ----------

    /// Intensity (bits 0-1).
    pub fn intensity(&self) -> (i: Intensity)
        ensures
            i == self.spec_intensity(),
    {
        Intensity::from_u8(((self.attributes >> 0) & 3) as u8)
    }

    /// Sets the intensity; nothing else changes.
    pub fn set_intensity(&mut self, value: Intensity)
        ensures
            final(self).attr_bits() == with_bit_field(old(self).attr_bits(), 0, 3, intensity_code(value) as u32),
            final(self).same_except(old(self), 3),
            final(self).spec_intensity() == value,
    {
        let b = self.attributes;
        let v = value.to_u8() as u32;
        self.attributes = (b & !(3u32 << 0u32)) | ((v & 3) << 0u32);
        proof {
            let nb = self.attributes;
            assert(nb & !3u32 == b & !3u32) by (bit_vector)
                requires nb == (b & !(3u32 << 0u32)) | ((v & 3) << 0u32);
            assert(((nb >> 0u32) & 3) == v) by (bit_vector)
                requires nb == (b & !(3u32 << 0u32)) | ((v & 3) << 0u32), v < 3;
            lemma_intensity_round_trip(value);
        }
    }

    /// Underline style (bits 2-4).
    pub fn underline(&self) -> (u: UnderlineStyle)
        ensures
            u == self.spec_underline(),
    {
        UnderlineStyle::from_u8(((self.attributes >> 2) & 7) as u8)
    }

    /// Sets the underline style; nothing else changes.
    pub fn set_underline(&mut self, value: UnderlineStyle)
        ensures
            final(self).attr_bits() == with_bit_field(old(self).attr_bits(), 2, 7, underline_style_code(value) as u32),
            final(self).same_except(old(self), 28),
            final(self).spec_underline() == value,
    {
        let b = self.attributes;
        let v = value.to_u8() as u32;
        self.attributes = (b & !(7u32 << 2u32)) | ((v & 7) << 2u32);
        proof {
            let nb = self.attributes;
            assert(nb & !28u32 == b & !28u32) by (bit_vector)
                requires nb == (b & !(7u32 << 2u32)) | ((v & 7) << 2u32);
            assert(((nb >> 2u32) & 7) == v) by (bit_vector)
                requires nb == (b & !(7u32 << 2u32)) | ((v & 7) << 2u32), v < 6;
            lemma_underline_style_round_trip(value);
        }
    }

    /// Semantic type (bits 13-14).
    pub fn semantic_type(&self) -> (t: SemanticType)
        ensures
            t == self.spec_semantic_type(),
    {
        SemanticType::from_u8(((self.attributes >> 13) & 3) as u8)
    }

    /// Sets the semantic type; nothing else changes.
    pub fn set_semantic_type(&mut self, value: SemanticType)
        ensures
            final(self).attr_bits() == with_bit_field(old(self).attr_bits(), 13, 3, semantic_type_code(value) as u32),
            final(self).same_except(old(self), 0x6000),
            final(self).spec_semantic_type() == value,
    {
        let b = self.attributes;
        let v = value.to_u8() as u32;
        self.attributes = (b & !(3u32 << 13u32)) | ((v & 3) << 13u32);
        proof {
            let nb = self.attributes;
            assert(nb & !0x6000u32 == b & !0x6000u32) by (bit_vector)
                requires nb == (b & !(3u32 << 13u32)) | ((v & 3) << 13u32);
            assert(((nb >> 13u32) & 3) == v) by (bit_vector)
                requires nb == (b & !(3u32 << 13u32)) | ((v & 3) << 13u32), v < 3;
            lemma_semantic_type_round_trip(value);
        }
    }

    /// Reads flag bit `bit`.
    fn flag(&self, bit: u32) -> (r: bool)
        requires
            bit < 32,
        ensures
            r == bit_flag(self.attr_bits(), bit),
    {
        (self.attributes & (1u32 << bit)) != 0
    }

    /// Writes flag bit `bit`; nothing else changes.
    fn set_flag(&mut self, bit: u32, value: bool)
        requires
            7 <= bit <= 12,
        ensures
            final(self).attr_bits() == with_bit_flag(old(self).attr_bits(), bit, value),
            final(self).same_except(old(self), 1u32 << bit),
            bit_flag(final(self).attr_bits(), bit) == value,
    {
        let b = self.attributes;
        if value {
            self.attributes = b | (1u32 << bit);
        } else {
            self.attributes = b & !(1u32 << bit);
        }
        proof {
            let nb = self.attributes;
            assert(nb & !(1u32 << bit) == b & !(1u32 << bit) && ((nb & (1u32 << bit)) != 0) == value)
                by (bit_vector)
                requires
                    bit < 32,
                    value ==> nb == b | (1u32 << bit),
                    !value ==> nb == b & !(1u32 << bit);
        }
    }

    /// Italic (bit 7).
    pub fn italic(&self) -> (r: bool)
        ensures
            r == self.spec_italic(),
    {
        self.flag(7)
    }

    /// Sets italic; nothing else changes.
    pub fn set_italic(&mut self, value: bool)
        ensures
            final(self).attr_bits() == with_bit_flag(old(self).attr_bits(), 7, value),
            final(self).same_except(old(self), 1u32 << 7),
            final(self).spec_italic() == value,
    {
        self.set_flag(7, value)
    }

    /// Reverse video (bit 8).
    pub fn reverse(&self) -> (r: bool)
        ensures
            r == self.spec_reverse(),
    {
        self.flag(8)
    }

    /// Sets reverse video; nothing else changes.
    pub fn set_reverse(&mut self, value: bool)
        ensures
            final(self).attr_bits() == with_bit_flag(old(self).attr_bits(), 8, value),
            final(self).same_except(old(self), 1u32 << 8),
            final(self).spec_reverse() == value,
    {
        self.set_flag(8, value)
    }

    /// Strikethrough (bit 9).
    pub fn strikethrough(&self) -> (r: bool)
        ensures
            r == self.spec_strikethrough(),
    {
        self.flag(9)
    }

    /// Sets strikethrough; nothing else changes.
    pub fn set_strikethrough(&mut self, value: bool)
        ensures
            final(self).attr_bits() == with_bit_flag(old(self).attr_bits(), 9, value),
            final(self).same_except(old(self), 1u32 << 9),
            final(self).spec_strikethrough() == value,
    {
        self.set_flag(9, value)
    }

    /// Invisible (bit 10).
    pub fn invisible(&self) -> (r: bool)
        ensures
            r == self.spec_invisible(),
    {
        self.flag(10)
    }

    /// Sets invisible; nothing else changes.
    pub fn set_invisible(&mut self, value: bool)
        ensures
            final(self).attr_bits() == with_bit_flag(old(self).attr_bits(), 10, value),
            final(self).same_except(old(self), 1u32 << 10),
            final(self).spec_invisible() == value,
    {
        self.set_flag(10, value)
    }

    /// Wrapped (bit 11).
    pub fn wrapped(&self) -> (r: bool)
        ensures
            r == self.spec_wrapped(),
    {
        self.flag(11)
    }

    /// Sets wrapped; nothing else changes.
    pub fn set_wrapped(&mut self, value: bool)
        ensures
            final(self).attr_bits() == with_bit_flag(old(self).attr_bits(), 11, value),
            final(self).same_except(old(self), 1u32 << 11),
            final(self).spec_wrapped() == value,
    {
        self.set_flag(11, value)
    }

    /// Overline (bit 12).
    pub fn overline(&self) -> (r: bool)
        ensures
            r == self.spec_overline(),
    {
        self.flag(12)
    }

    /// Sets overline; nothing else changes.
    pub fn set_overline(&mut self, value: bool)
        ensures
            final(self).attr_bits() == with_bit_flag(old(self).attr_bits(), 12, value),
            final(self).same_except(old(self), 1u32 << 12),
            final(self).spec_overline() == value,
    {
        self.set_flag(12, value)
    }
}


/// The flag bits that `to_flags` reports for attribute bits `b`.
pub open spec fn flags_of_bits(b: u32) -> u16 {
    let bold = intensity_of(bit_field(b, 0, 3) as u8) == Intensity::Bold;
    let dim = intensity_of(bit_field(b, 0, 3) as u8) == Intensity::Dim;
    let ul = underline_style_of(bit_field(b, 2, 7) as u8);
    let f0: u16 = 0;
    let f1: u16 = if bold { f0 | 1 } else { f0 };
    let f2: u16 = if dim { f1 | 512 } else { f1 };
    let f3: u16 = if bit_flag(b, 7) { f2 | 2 } else { f2 };
    let f4: u16 = if ul != UnderlineStyle::NoUnderline {
        if ul == UnderlineStyle::Double { (f3 | 4) | 256 } else { f3 | 4 }
    } else {
        f3
    };
    let f5: u16 = if bit_flag(b, 8) { f4 | 8 } else { f4 };
    let f6: u16 = if bit_flag(b, 9) { f5 | 16 } else { f5 };
    let f7: u16 = if bit_flag(b, 10) { f6 | 64 } else { f6 };
    let f8: u16 = if bit_flag(b, 12) { f7 | 128 } else { f7 };
    if bit_flag(b, 11) { f8 | 2048 } else { f8 }
}

/// The attribute bits that `from_flags` sets for flag bits `f`.
pub open spec fn bits_of_flags(f: u16) -> u32 {
    let b0: u32 = 0;
    let b1 = if f & 1 == 1 { with_bit_field(b0, 0, 3, 1) } else { b0 };
    let b2 = if f & 512 == 512 { with_bit_field(b1, 0, 3, 2) } else { b1 };
    let b3 = if f & 2 == 2 { with_bit_flag(b2, 7, true) } else { b2 };
    let b4 = if f & 4 == 4 {
        with_bit_field(b3, 2, 7, if f & 256 == 256 { 2 } else { 1 })
    } else {
        b3
    };
    let b5 = if f & 8 == 8 { with_bit_flag(b4, 8, true) } else { b4 };
    let b6 = if f & 16 == 16 { with_bit_flag(b5, 9, true) } else { b5 };
    let b7 = if f & 64 == 64 { with_bit_flag(b6, 10, true) } else { b6 };
    let b8 = if f & 128 == 128 { with_bit_flag(b7, 12, true) } else { b7 };
    if f & 2048 == 2048 { with_bit_flag(b8, 11, true) } else { b8 }
}

/// `flags_of_bits` read directly off the bits: intensity 1 is bold and 2
/// dim, an underline field of 2 is double.
pub open spec fn flags_of_fields(b: u32) -> u16 {
    (if bit_field(b, 0, 3) == 1 { 1u16 } else { 0u16 }) | (if bit_field(b, 0, 3) == 2 { 512u16 } else { 0u16 })
        | (if bit_flag(b, 7) { 2u16 } else { 0u16 }) | (if bit_field(b, 2, 7) != 0 { 4u16 } else { 0u16 })
        | (if bit_field(b, 2, 7) == 2 { 256u16 } else { 0u16 }) | (if bit_flag(b, 8) { 8u16 } else { 0u16 })
        | (if bit_flag(b, 9) { 16u16 } else { 0u16 }) | (if bit_flag(b, 10) { 64u16 } else { 0u16 })
        | (if bit_flag(b, 12) { 128u16 } else { 0u16 }) | (if bit_flag(b, 11) { 2048u16 } else { 0u16 })
}

/// `flags_of_bits` with its conditions read as numbers.
pub open spec fn flags_nested(b: u32) -> u16 {
    let f0: u16 = 0;
    let f1: u16 = if bit_field(b, 0, 3) == 1 { f0 | 1 } else { f0 };
    let f2: u16 = if bit_field(b, 0, 3) == 2 { f1 | 512 } else { f1 };
    let f3: u16 = if bit_flag(b, 7) { f2 | 2 } else { f2 };
    let f4: u16 = if bit_field(b, 2, 7) != 0 {
        if bit_field(b, 2, 7) == 2 { (f3 | 4) | 256 } else { f3 | 4 }
    } else {
        f3
    };
    let f5: u16 = if bit_flag(b, 8) { f4 | 8 } else { f4 };
    let f6: u16 = if bit_flag(b, 9) { f5 | 16 } else { f5 };
    let f7: u16 = if bit_flag(b, 10) { f6 | 64 } else { f6 };
    let f8: u16 = if bit_flag(b, 12) { f7 | 128 } else { f7 };
    if bit_flag(b, 11) { f8 | 2048 } else { f8 }
}

/// The flags of bits whose underline field is at most 2 read as the
/// fields say.
pub proof fn lemma_flags_of_fields(b: u32)
    requires
        bit_field(b, 2, 7) <= 2,
    ensures
        flags_of_bits(b) == flags_of_fields(b),
{
    let i = bit_field(b, 0, 3);
    let u = bit_field(b, 2, 7);
    assert(i < 4 && ((i as u8) & 3u8) == i as u8) by (bit_vector)
        requires
            i == (b >> 0u32) & 3u32,
    ;
    assert(((u as u8) & 7u8) == u as u8) by (bit_vector)
        requires
            u == (b >> 2u32) & 7u32,
            u <= 2u32,
    ;
    assert(flags_of_bits(b) == flags_nested(b));
    assert(flags_nested(b) == flags_of_fields(b)) by (bit_vector);
}

/// The flags for the given attribute facts, built as `flags_of_bits`
/// builds them.
pub open spec fn flags_from(
    bold: bool,
    dim: bool,
    italic: bool,
    ul: bool,
    dbl: bool,
    rev: bool,
    strike: bool,
    inv: bool,
    over: bool,
    wrapped: bool,
) -> u16 {
    let f0: u16 = 0;
    let f1: u16 = if bold { f0 | 1 } else { f0 };
    let f2: u16 = if dim { f1 | 512 } else { f1 };
    let f3: u16 = if italic { f2 | 2 } else { f2 };
    let f4: u16 = if ul {
        if dbl { (f3 | 4) | 256 } else { f3 | 4 }
    } else {
        f3
    };
    let f5: u16 = if rev { f4 | 8 } else { f4 };
    let f6: u16 = if strike { f5 | 16 } else { f5 };
    let f7: u16 = if inv { f6 | 64 } else { f6 };
    let f8: u16 = if over { f7 | 128 } else { f7 };
    if wrapped { f8 | 2048 } else { f8 }
}

/// Each flag that `to_flags` gives says one thing of the attributes: bold,
/// dim, italic, underlined, double underlined, reverse, strikethrough,
/// invisible, overline and wrapped; blink and rapid blink are never set.
pub proof fn lemma_to_flags_fields(a: CellAttributes)
    ensures
        ({
            let f = flags_of_bits(a.attr_bits());
            &&& (f & 1 == 1) == (a.spec_intensity() == Intensity::Bold)
            &&& (f & 512 == 512) == (a.spec_intensity() == Intensity::Dim)
            &&& (f & 2 == 2) == a.spec_italic()
            &&& (f & 4 == 4) == (a.spec_underline() != UnderlineStyle::NoUnderline)
            &&& (f & 256 == 256) == (a.spec_underline() == UnderlineStyle::Double)
            &&& (f & 8 == 8) == a.spec_reverse()
            &&& (f & 16 == 16) == a.spec_strikethrough()
            &&& (f & 64 == 64) == a.spec_invisible()
            &&& (f & 128 == 128) == bit_flag(a.attr_bits(), 12)
            &&& (f & 2048 == 2048) == a.spec_wrapped()
            &&& f & 32 == 0
            &&& f & 1024 == 0
        }),
{
    let b = a.attr_bits();
    let bold = a.spec_intensity() == Intensity::Bold;
    let dim = a.spec_intensity() == Intensity::Dim;
    let ul = a.spec_underline() != UnderlineStyle::NoUnderline;
    let dbl = a.spec_underline() == UnderlineStyle::Double;
    let it = bit_flag(b, 7);
    let rev = bit_flag(b, 8);
    let st = bit_flag(b, 9);
    let inv = bit_flag(b, 10);
    let ov = bit_flag(b, 12);
    let wr = bit_flag(b, 11);
    assert(!(bold && dim));
    assert(dbl ==> ul);
    assert(flags_of_bits(b) == flags_from(bold, dim, it, ul, dbl, rev, st, inv, ov, wr));
    let f = flags_from(bold, dim, it, ul, dbl, rev, st, inv, ov, wr);
    assert({
        &&& (f & 1 == 1) == bold
        &&& (f & 512 == 512) == dim
        &&& (f & 2 == 2) == it
        &&& (f & 4 == 4) == ul
        &&& (f & 256 == 256) == dbl
        &&& (f & 8 == 8) == rev
        &&& (f & 16 == 16) == st
        &&& (f & 64 == 64) == inv
        &&& (f & 128 == 128) == ov
        &&& (f & 2048 == 2048) == wr
        &&& f & 32 == 0
        &&& f & 1024 == 0
    }) by (bit_vector)
        requires
            f == flags_from(bold, dim, it, ul, dbl, rev, st, inv, ov, wr),
            dbl ==> ul,
    ;
}

/// Attribute bits that `to_flags` then `from_flags` give back: intensity
/// normal, bold or dim, underline none, single or double, no blink, the
/// output semantic type and no reserved bit.
pub open spec fn flags_round_trip_bits(b: u32) -> bool {
    &&& bit_field(b, 0, 3) != 3
    &&& bit_field(b, 2, 7) <= 2
    &&& bit_field(b, 5, 3) == 0
    &&& bit_field(b, 13, 3) == 0
    &&& b < 0x8000
}

/// Turning such bits into flags and back gives them back.
pub proof fn lemma_flags_bits_round_trip(b: u32)
    requires
        flags_round_trip_bits(b),
    ensures
        bits_of_flags(flags_of_bits(b)) == b,
{
    lemma_flags_of_fields(b);
    assert(bits_of_flags(flags_of_fields(b)) == b) by (bit_vector)
        requires
            ((b >> 0u32) & 3u32) != 3u32,
            ((b >> 2u32) & 7u32) <= 2u32,
            ((b >> 5u32) & 3u32) == 0u32,
            ((b >> 13u32) & 3u32) == 0u32,
            b < 0x8000u32,
    ;
}

/// `from_flags(a.to_flags())` is `a` when `a` has the default colors, no
/// underline color, and bits that flags can carry (see
/// `flags_round_trip_bits`): `r` is what `from_flags` returns for the
/// flags of `a`.
pub proof fn lemma_flags_round_trip(a: CellAttributes, r: CellAttributes)
    requires
        a.fg() == Color::DefaultForeground,
        a.bg() == Color::DefaultBackground,
        a.ul_color() == None::<Color>,
        flags_round_trip_bits(a.attr_bits()),
        r.attr_bits() == bits_of_flags(flags_of_bits(a.attr_bits())),
        r.fg() == Color::DefaultForeground,
        r.bg() == Color::DefaultBackground,
        r.ul_color() == None::<Color>,
    ensures
        r == a,
{
    lemma_flags_bits_round_trip(a.attr_bits());
    CellAttributes::lemma_eq(r, a);
}

/// Clearing the semantic type and the wrap flag twice is clearing them
/// once: `r2` is what `clone_sgr_only` returns for `r1`, which it returned
/// for some attributes.
pub proof fn lemma_clone_sgr_only_idempotent(a: CellAttributes, r1: CellAttributes, r2: CellAttributes)
    requires
        r1.attr_bits() == with_bit_flag(with_bit_field(a.attr_bits(), 13, 3, 0), 11, false),
        r1.fg() == a.fg() && r1.bg() == a.bg() && r1.ul_color() == a.ul_color(),
        r2.attr_bits() == with_bit_flag(with_bit_field(r1.attr_bits(), 13, 3, 0), 11, false),
        r2.fg() == r1.fg() && r2.bg() == r1.bg() && r2.ul_color() == r1.ul_color(),
    ensures
        r2 == r1,
{
    let b = a.attr_bits();
    let once = with_bit_flag(with_bit_field(b, 13, 3, 0), 11, false);
    assert(with_bit_flag(with_bit_field(once, 13, 3, 0), 11, false) == once) by (bit_vector)
        requires
            once == with_bit_flag(with_bit_field(b, 13, 3, 0), 11, false),
    ;
    CellAttributes::lemma_eq(r2, r1);
}

impl CellAttributes {
    /// Whether the intensity is bold.
    pub fn is_bold(&self) -> (r: bool)
        ensures
            r == (self.spec_intensity() == Intensity::Bold),
    {
        match self.intensity() {
            Intensity::Bold => true,
            _ => false,
        }
    }

    /// Sets the intensity to bold (`true`) or normal (`false`).
    pub fn set_bold(&mut self, bold: bool)
        ensures
            final(self).same_except(old(self), 3),
            final(self).spec_intensity() == (if bold { Intensity::Bold } else { Intensity::Normal }),
            final(self).attr_bits() == with_bit_field(old(self).attr_bits(), 0, 3, if bold { 1 } else { 0 }),
    {
        self.set_intensity(if bold { Intensity::Bold } else { Intensity::Normal });
    }

    /// Whether the intensity is dim.
    pub fn is_dim(&self) -> (r: bool)
        ensures
            r == (self.spec_intensity() == Intensity::Dim),
    {
        match self.intensity() {
            Intensity::Dim => true,
            _ => false,
        }
    }

    /// Sets the intensity to dim (`true`) or normal (`false`).
    pub fn set_dim(&mut self, dim: bool)
        ensures
            final(self).same_except(old(self), 3),
            final(self).spec_intensity() == (if dim { Intensity::Dim } else { Intensity::Normal }),
            final(self).attr_bits() == with_bit_field(old(self).attr_bits(), 0, 3, if dim { 2 } else { 0 }),
    {
        self.set_intensity(if dim { Intensity::Dim } else { Intensity::Normal });
    }

    /// Whether any underline style is set.
    pub fn has_underline(&self) -> (r: bool)
        ensures
            r == (self.spec_underline() != UnderlineStyle::NoUnderline),
    {
        match self.underline() {
            UnderlineStyle::NoUnderline => false,
            _ => true,
        }
    }

    /// Sets the foreground color; nothing else changes.
    pub fn set_foreground(&mut self, color: Color)
        ensures
            final(self).fg() == color,
            final(self).attr_bits() == old(self).attr_bits(),
            final(self).bg() == old(self).bg(),
            final(self).ul_color() == old(self).ul_color(),
    {
        self.foreground = color;
    }

    /// Sets the background color; nothing else changes.
    pub fn set_background(&mut self, color: Color)
        ensures
            final(self).bg() == color,
            final(self).attr_bits() == old(self).attr_bits(),
            final(self).fg() == old(self).fg(),
            final(self).ul_color() == old(self).ul_color(),
    {
        self.background = color;
    }

    /// Sets the underline color; nothing else changes.
    pub fn set_underline_color(&mut self, color: Option<Color>)
        ensures
            final(self).ul_color() == color,
            final(self).attr_bits() == old(self).attr_bits(),
            final(self).fg() == old(self).fg(),
            final(self).bg() == old(self).bg(),
    {
        self.underline_color = color;
    }

    /// The SGR flags these attributes amount to.
    pub fn to_flags(&self) -> (f: CellFlags)
        ensures
            f@ == flags_of_bits(self.attr_bits()),
    {
        let mut flags = CellFlags::empty();
        if self.is_bold() {
            flags.insert(CellFlags::BOLD());
        }
        if self.is_dim() {
            flags.insert(CellFlags::DIM());
        }
        if self.italic() {
            flags.insert(CellFlags::ITALIC());
        }
        if self.has_underline() {
            flags.insert(CellFlags::UNDERLINE());
            match self.underline() {
                UnderlineStyle::Double => flags.insert(CellFlags::DOUBLE_UNDERLINE()),
                _ => {},
            }
        }
        if self.reverse() {
            flags.insert(CellFlags::REVERSE());
        }
        if self.strikethrough() {
            flags.insert(CellFlags::STRIKETHROUGH());
        }
        if self.invisible() {
            flags.insert(CellFlags::INVISIBLE());
        }
        if self.overline() {
            flags.insert(CellFlags::OVERLINE());
        }
        if self.wrapped() {
            flags.insert(CellFlags::WRAPPED());
        }
        flags
    }

    /// Default attributes with the SGR state of `flags` (blink bits are not kept).
    pub fn from_flags(flags: CellFlags) -> (a: CellAttributes)
        ensures
            a.attr_bits() == bits_of_flags(flags@),
            a.fg() == Color::DefaultForeground,
            a.bg() == Color::DefaultBackground,
            a.ul_color() == None::<Color>,
    {
        let mut attrs = CellAttributes::default();
        if flags.contains(CellFlags::BOLD()) {
            attrs.set_bold(true);
        }
        if flags.contains(CellFlags::DIM()) {
            attrs.set_dim(true);
        }
        if flags.contains(CellFlags::ITALIC()) {
            attrs.set_italic(true);
        }
        if flags.contains(CellFlags::UNDERLINE()) {
            attrs.set_underline(
                if flags.contains(CellFlags::DOUBLE_UNDERLINE()) {
                    UnderlineStyle::Double
                } else {
                    UnderlineStyle::Single
                },
            );
        }
        if flags.contains(CellFlags::REVERSE()) {
            attrs.set_reverse(true);
        }
        if flags.contains(CellFlags::STRIKETHROUGH()) {
            attrs.set_strikethrough(true);
        }
        if flags.contains(CellFlags::INVISIBLE()) {
            attrs.set_invisible(true);
        }
        if flags.contains(CellFlags::OVERLINE()) {
            attrs.set_overline(true);
        }
        if flags.contains(CellFlags::WRAPPED()) {
            attrs.set_wrapped(true);
        }
        attrs
    }

    /// Clears every packed attribute and the underline color; the colors stay.
    pub fn reset(&mut self)
        ensures
            final(self).attr_bits() == 0,
            final(self).ul_color() == None::<Color>,
            final(self).fg() == old(self).fg(),
            final(self).bg() == old(self).bg(),
    {
        self.attributes = 0;
        self.underline_color = None;
    }

    /// Resets everything, colors included.
    pub fn reset_all(&mut self)
        ensures
            *final(self) == CellAttributes::spec_default(),
    {
        *self = CellAttributes::default();
    }

    /// A copy that keeps the SGR state and colors but clears the semantic type
    /// (back to output) and the wrapped flag.
    pub fn clone_sgr_only(&self) -> (a: CellAttributes)
        ensures
            a.attr_bits() == with_bit_flag(
                with_bit_field(self.attr_bits(), 13, 3, 0),
                11,
                false,
            ),
            a.fg() == self.fg(),
            a.bg() == self.bg(),
            a.ul_color() == self.ul_color(),
            a.spec_semantic_type() == SemanticType::Output,
            !a.spec_wrapped(),
            a.same_except(self, 0x6800),
    {
        let mut result = CellAttributes {
            attributes: self.attributes,
            foreground: self.foreground,
            background: self.background,
            underline_color: self.underline_color,
        };
        result.set_semantic_type(SemanticType::default());
        let ghost mid = result.attributes;
        result.set_wrapped(false);
        proof {
            let nb2 = result.attributes;
            assert((nb2 >> 13u32) & 3 == (mid >> 13u32) & 3) by (bit_vector)
                requires nb2 & !(1u32 << 11u32) == mid & !(1u32 << 11u32);
            let b = self.attributes;
            let nb = result.attributes;
            assert(nb & !0x6800u32 == b & !0x6800u32) by (bit_vector)
                requires
                    nb == with_bit_flag(with_bit_field(b, 13, 3, 0), 11, false);
        }
        result
    }
}

} // verus!
