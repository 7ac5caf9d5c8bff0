//! Small attribute types of a cell: semantic type (shell integration),
//! SGR flag bits, intensity and underline style.
use vstd::prelude::*;

verus! {

/// Semantic type of a cell, used by shell integration.
#[derive(Debug, Clone, Copy, PartialEq, Eq, Structural)]
pub enum SemanticType {
    /// Command output (the default).
    Output,
    /// User input.
    Input,
    /// Prompt.
    Prompt,
}

/// The value of a two-bit semantic field: 1 is input, 2 is prompt, anything else output.
pub open spec fn semantic_type_of(value: u8) -> SemanticType {
    let v = value & 3;
    if v == 1 {
        SemanticType::Input
    } else if v == 2 {
        SemanticType::Prompt
    } else {
        SemanticType::Output
    }
}

/// The bit value of a semantic type.
pub open spec fn semantic_type_code(t: SemanticType) -> u8 {
    match t {
        SemanticType::Output => 0,
        SemanticType::Input => 1,
        SemanticType::Prompt => 2,
    }
}

impl Default for SemanticType {
    fn default() -> (t: SemanticType)
        ensures
            t == SemanticType::Output,
    {
        SemanticType::Output
    }
}

impl SemanticType {
    /// Decodes the low two bits of `value`.
    pub fn from_u8(value: u8) -> (t: SemanticType)
        ensures
            t == semantic_type_of(value),
    {
        let v = value & 3;
        if v == 1 {
            SemanticType::Input
        } else if v == 2 {
            SemanticType::Prompt
        } else {
            SemanticType::Output
        }
    }

    /// The bit code of this semantic type.
    pub fn to_u8(self) -> (v: u8)
        ensures
            v == semantic_type_code(self),
    {
        match self {
            SemanticType::Output => 0,
            SemanticType::Input => 1,
            SemanticType::Prompt => 2,
        }
    }
}

/// Decoding the code of a semantic type gives it back.
pub proof fn lemma_semantic_type_round_trip(t: SemanticType)
    ensures
        semantic_type_of(semantic_type_code(t)) == t,
{
    assert(0u8 & 3 == 0) by (bit_vector);
    assert(1u8 & 3 == 1) by (bit_vector);
    assert(2u8 & 3 == 2) by (bit_vector);
}

/// Text attribute flags of a cell (SGR), as a set of bits.
#[derive(Debug, Clone, Copy, PartialEq, Eq, Structural)]
pub struct CellFlags {
    bits: u16,
}

impl View for CellFlags {
    type V = u16;

    closed spec fn view(&self) -> u16 {
        self.bits
    }
}

impl Default for CellFlags {
    fn default() -> (f: CellFlags)
        ensures
            f@ == 0,
    {
        CellFlags { bits: 0 }
    }
}

impl core::ops::BitOr for CellFlags {
    type Output = CellFlags;

    fn bitor(self, rhs: CellFlags) -> (r: CellFlags)
        ensures
            r@ == self@ | rhs@,
    {
        CellFlags { bits: self.bits | rhs.bits }
    }
}

impl vstd::std_specs::ops::BitOrSpecImpl for CellFlags {
    open spec fn obeys_bitor_spec() -> bool {
        true
    }

    open spec fn bitor_req(self, rhs: CellFlags) -> bool {
        true
    }

    closed spec fn bitor_spec(self, rhs: CellFlags) -> CellFlags {
        CellFlags { bits: self.bits | rhs.bits }
    }
}

impl CellFlags {
    /// The flag set with exactly the given bits.
    pub fn from_bits_retain(bits: u16) -> (f: CellFlags)
        ensures
            f@ == bits,
    {
        CellFlags { bits }
    }

    /// The raw bits.
    pub fn bits(&self) -> (b: u16)
        ensures
            b == self@,
    {
        self.bits
    }

    /// The empty flag set.
    pub fn empty() -> (f: CellFlags)
        ensures
            f@ == 0,
    {
        CellFlags { bits: 0 }
    }

    /// Whether no flag is set.
    pub fn is_empty(&self) -> (r: bool)
        ensures
            r == (self@ == 0),
    {
        self.bits == 0
    }

    /// Whether every flag of `other` is set here.
    pub fn contains(&self, other: CellFlags) -> (r: bool)
        ensures
            r == (self@ & other@ == other@),
    {
        self.bits & other.bits == other.bits
    }

    /// Sets every flag of `other`.
    pub fn insert(&mut self, other: CellFlags)
        ensures
            final(self)@ == old(self)@ | other@,
    {
        self.bits = self.bits | other.bits;
    }

    /// Clears every flag of `other`.
    pub fn remove(&mut self, other: CellFlags)
        ensures
            final(self)@ == old(self)@ & !other@,
    {
        self.bits = self.bits & !other.bits;
    }

    /// Sets or clears every flag of `other`.
    pub fn set(&mut self, other: CellFlags, value: bool)
        ensures
            final(self)@ == (if value { old(self)@ | other@ } else { old(self)@ & !other@ }),
    {
        if value {
            self.insert(other);
        } else {
            self.remove(other);
        }
    }

    /// Bold (SGR 1).
    #[allow(non_snake_case)]
    pub fn BOLD() -> (f: CellFlags)
        ensures
            f@ == 1,
    {
        CellFlags { bits: 1 }
    }

    /// Italic (SGR 3).
    #[allow(non_snake_case)]
    pub fn ITALIC() -> (f: CellFlags)
        ensures
            f@ == 2,
    {
        CellFlags { bits: 2 }
    }

    /// Underline (SGR 4).
    #[allow(non_snake_case)]
    pub fn UNDERLINE() -> (f: CellFlags)
        ensures
            f@ == 4,
    {
        CellFlags { bits: 4 }
    }

    /// Reverse video (SGR 7).
    #[allow(non_snake_case)]
    pub fn REVERSE() -> (f: CellFlags)
        ensures
            f@ == 8,
    {
        CellFlags { bits: 8 }
    }

    /// Strikethrough (SGR 9).
    #[allow(non_snake_case)]
    pub fn STRIKETHROUGH() -> (f: CellFlags)
        ensures
            f@ == 16,
    {
        CellFlags { bits: 16 }
    }

    /// Blink (SGR 5).
    #[allow(non_snake_case)]
    pub fn BLINK() -> (f: CellFlags)
        ensures
            f@ == 32,
    {
        CellFlags { bits: 32 }
    }

    /// Invisible (SGR 8).
    #[allow(non_snake_case)]
    pub fn INVISIBLE() -> (f: CellFlags)
        ensures
            f@ == 64,
    {
        CellFlags { bits: 64 }
    }

    /// Overline (SGR 53).
    #[allow(non_snake_case)]
    pub fn OVERLINE() -> (f: CellFlags)
        ensures
            f@ == 128,
    {
        CellFlags { bits: 128 }
    }

    /// Double underline (SGR 21).
    #[allow(non_snake_case)]
    pub fn DOUBLE_UNDERLINE() -> (f: CellFlags)
        ensures
            f@ == 256,
    {
        CellFlags { bits: 256 }
    }

    /// Dim (SGR 2).
    #[allow(non_snake_case)]
    pub fn DIM() -> (f: CellFlags)
        ensures
            f@ == 512,
    {
        CellFlags { bits: 512 }
    }

    /// Rapid blink (SGR 6).
    #[allow(non_snake_case)]
    pub fn RAPID_BLINK() -> (f: CellFlags)
        ensures
            f@ == 1024,
    {
        CellFlags { bits: 1024 }
    }

    /// The line was wrapped after this cell (internal).
    #[allow(non_snake_case)]
    pub fn WRAPPED() -> (f: CellFlags)
        ensures
            f@ == 2048,
    {
        CellFlags { bits: 2048 }
    }
}

/// Intensity of a cell (SGR 1 / 2 / 22).
#[derive(Debug, Clone, Copy, PartialEq, Eq, Structural)]
pub enum Intensity {
    /// Normal.
    Normal,
    /// Bold (SGR 1).
    Bold,
    /// Dim (SGR 2).
    Dim,
}

/// The value of a two-bit intensity field: 1 is bold, 2 is dim, anything else normal.
pub open spec fn intensity_of(value: u8) -> Intensity {
    let v = value & 3;
    if v == 1 {
        Intensity::Bold
    } else if v == 2 {
        Intensity::Dim
    } else {
        Intensity::Normal
    }
}

/// The bit value of an intensity.
pub open spec fn intensity_code(i: Intensity) -> u8 {
    match i {
        Intensity::Normal => 0,
        Intensity::Bold => 1,
        Intensity::Dim => 2,
    }
}

impl Default for Intensity {
    fn default() -> (i: Intensity)
        ensures
            i == Intensity::Normal,
    {
        Intensity::Normal
    }
}

impl Intensity {
    /// Decodes the low two bits of `value`.
    pub fn from_u8(value: u8) -> (i: Intensity)
        ensures
            i == intensity_of(value),
    {
        let v = value & 3;
        if v == 1 {
            Intensity::Bold
        } else if v == 2 {
            Intensity::Dim
        } else {
            Intensity::Normal
        }
    }

    /// The bit code of this intensity.
    pub fn to_u8(self) -> (v: u8)
        ensures
            v == intensity_code(self),
    {
        match self {
            Intensity::Normal => 0,
            Intensity::Bold => 1,
            Intensity::Dim => 2,
        }
    }
}

/// Decoding the code of an intensity gives it back.
pub proof fn lemma_intensity_round_trip(i: Intensity)
    ensures
        intensity_of(intensity_code(i)) == i,
{
    assert(0u8 & 3 == 0) by (bit_vector);
    assert(1u8 & 3 == 1) by (bit_vector);
    assert(2u8 & 3 == 2) by (bit_vector);
}

/// Underline style (SGR 4 / 21 / 24 and the 4:n sub-parameters).
#[derive(Debug, Clone, Copy, PartialEq, Eq, Structural)]
pub enum UnderlineStyle {
    /// No underline.
    NoUnderline,
    /// Single (SGR 4).
    Single,
    /// Double (SGR 21).
    Double,
    /// Curly (SGR 4:3).
    Curly,
    /// Dotted (SGR 4:4).
    Dotted,
    /// Dashed (SGR 4:5).
    Dashed,
}

/// The value of a three-bit underline field: 1-5 name a style, anything else none.
pub open spec fn underline_style_of(value: u8) -> UnderlineStyle {
    let v = value & 7;
    if v == 1 {
        UnderlineStyle::Single
    } else if v == 2 {
        UnderlineStyle::Double
    } else if v == 3 {
        UnderlineStyle::Curly
    } else if v == 4 {
        UnderlineStyle::Dotted
    } else if v == 5 {
        UnderlineStyle::Dashed
    } else {
        UnderlineStyle::NoUnderline
    }
}

/// The bit value of an underline style.
pub open spec fn underline_style_code(u: UnderlineStyle) -> u8 {
    match u {
        UnderlineStyle::NoUnderline => 0,
        UnderlineStyle::Single => 1,
        UnderlineStyle::Double => 2,
        UnderlineStyle::Curly => 3,
        UnderlineStyle::Dotted => 4,
        UnderlineStyle::Dashed => 5,
    }
}

impl Default for UnderlineStyle {
    fn default() -> (u: UnderlineStyle)
        ensures
            u == UnderlineStyle::NoUnderline,
    {
        UnderlineStyle::NoUnderline
    }
}

impl UnderlineStyle {
    /// Decodes the low three bits of `value`.
    pub fn from_u8(value: u8) -> (u: UnderlineStyle)
        ensures
            u == underline_style_of(value),
    {
        let v = value & 7;
        if v == 1 {
            UnderlineStyle::Single
        } else if v == 2 {
            UnderlineStyle::Double
        } else if v == 3 {
            UnderlineStyle::Curly
        } else if v == 4 {
            UnderlineStyle::Dotted
        } else if v == 5 {
            UnderlineStyle::Dashed
        } else {
            UnderlineStyle::NoUnderline
        }
    }

    /// The bit code of this style.
    pub fn to_u8(self) -> (v: u8)
        ensures
            v == underline_style_code(self),
    {
        match self {
            UnderlineStyle::NoUnderline => 0,
            UnderlineStyle::Single => 1,
            UnderlineStyle::Double => 2,
            UnderlineStyle::Curly => 3,
            UnderlineStyle::Dotted => 4,
            UnderlineStyle::Dashed => 5,
        }
    }
}

/// Decoding the code of an underline style gives it back.
pub proof fn lemma_underline_style_round_trip(u: UnderlineStyle)
    ensures
        underline_style_of(underline_style_code(u)) == u,
{
    assert(0u8 & 7 == 0) by (bit_vector);
    assert(1u8 & 7 == 1) by (bit_vector);
    assert(2u8 & 7 == 2) by (bit_vector);
    assert(3u8 & 7 == 3) by (bit_vector);
    assert(4u8 & 7 == 4) by (bit_vector);
    assert(5u8 & 7 == 5) by (bit_vector);
}

} // verus!
