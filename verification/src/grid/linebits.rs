//! Flag bits of a line: hyperlinks, double width/height, direction, wrapping.
use vstd::prelude::*;

verus! {

/// Flag bits of a line.
#[derive(Debug, Clone, Copy, PartialEq, Eq, Structural)]
pub struct LineBits {
    bits: u16,
}

impl View for LineBits {
    type V = u16;

    closed spec fn view(&self) -> u16 {
        self.bits
    }
}

/// `bits` with the flags of `flag` set or cleared.
pub open spec fn with_flags(bits: u16, flag: u16, value: bool) -> u16 {
    if value {
        bits | flag
    } else {
        bits & !flag
    }
}

impl Default for LineBits {
    fn default() -> (b: LineBits)
        ensures
            b@ == 0,
    {
        LineBits { bits: 0 }
    }
}

impl core::ops::BitOr for LineBits {
    type Output = LineBits;

    fn bitor(self, rhs: LineBits) -> (r: LineBits)
        ensures
            r@ == self@ | rhs@,
    {
        LineBits { bits: self.bits | rhs.bits }
    }
}

impl vstd::std_specs::ops::BitOrSpecImpl for LineBits {
    open spec fn obeys_bitor_spec() -> bool {
        true
    }

    open spec fn bitor_req(self, rhs: LineBits) -> bool {
        true
    }

    closed spec fn bitor_spec(self, rhs: LineBits) -> LineBits {
        LineBits { bits: self.bits | rhs.bits }
    }
}

impl LineBits {
    /// No flag set.
    pub fn new() -> (b: LineBits)
        ensures
            b@ == 0,
    {
        LineBits { bits: 0 }
    }

    /// No flag set.
    pub fn empty() -> (b: LineBits)
        ensures
            b@ == 0,
    {
        LineBits { bits: 0 }
    }

    /// The flag set with exactly the given bits.
    pub fn from_bits_retain(bits: u16) -> (b: LineBits)
        ensures
            b@ == bits,
    {
        LineBits { bits }
    }

    /// The raw bits.
    pub fn bits(&self) -> (b: u16)
        ensures
            b == self@,
    {
        self.bits
    }

    /// Whether no flag is set.
    pub fn is_empty(&self) -> (r: bool)
        ensures
            r == (self@ == 0),
    {
        self.bits == 0
    }

    /// Whether every flag of `other` is set.
    pub fn contains(&self, other: LineBits) -> (r: bool)
        ensures
            r == (self@ & other@ == other@),
    {
        self.bits & other.bits == other.bits
    }

    /// Sets every flag of `other`.
    pub fn insert(&mut self, other: LineBits)
        ensures
            final(self)@ == old(self)@ | other@,
    {
        self.bits = self.bits | other.bits;
    }

    /// Clears every flag of `other`.
    pub fn remove(&mut self, other: LineBits)
        ensures
            final(self)@ == old(self)@ & !other@,
    {
        self.bits = self.bits & !other.bits;
    }

    /// Sets or clears every flag of `other`.
    pub fn set(&mut self, other: LineBits, value: bool)
        ensures
            final(self)@ == with_flags(old(self)@, other@, value),
    {
        if value {
            self.bits = self.bits | other.bits;
        } else {
            self.bits = self.bits & !other.bits;
        }
    }

    fn has_flag(&self, flag: u16) -> (r: bool)
        ensures
            r == (self@ & flag == flag),
    {
        self.bits & flag == flag
    }

    fn set_flag(&mut self, flag: u16, value: bool)
        ensures
            final(self)@ == with_flags(old(self)@, flag, value),
    {
        if value {
            self.bits = self.bits | flag;
        } else {
            self.bits = self.bits & !flag;
        }
    }

    /// Contains a hyperlink.
    #[allow(non_snake_case)]
    pub fn HAS_HYPERLINK() -> (b: LineBits)
        ensures
            b@ == 2,
    {
        LineBits { bits: 2 }
    }

    /// Whether the flag `HAS_HYPERLINK` is set.
    pub fn has_hyperlink(&self) -> (r: bool)
        ensures
            r == (self@ & 2 == 2),
    {
        self.has_flag(2)
    }

    /// Sets or clears the flag `HAS_HYPERLINK`.
    pub fn set_has_hyperlink(&mut self, value: bool)
        ensures
            final(self)@ == with_flags(old(self)@, 2, value),
    {
        self.set_flag(2, value)
    }

    /// Implicit hyperlinks have been scanned for.
    #[allow(non_snake_case)]
    pub fn SCANNED_IMPLICIT_HYPERLINKS() -> (b: LineBits)
        ensures
            b@ == 4,
    {
        LineBits { bits: 4 }
    }

    /// Whether the flag `SCANNED_IMPLICIT_HYPERLINKS` is set.
    pub fn scanned_implicit_hyperlinks(&self) -> (r: bool)
        ensures
            r == (self@ & 4 == 4),
    {
        self.has_flag(4)
    }

    /// Sets or clears the flag `SCANNED_IMPLICIT_HYPERLINKS`.
    pub fn set_scanned_implicit_hyperlinks(&mut self, value: bool)
        ensures
            final(self)@ == with_flags(old(self)@, 4, value),
    {
        self.set_flag(4, value)
    }

    /// Contains implicit hyperlinks.
    #[allow(non_snake_case)]
    pub fn HAS_IMPLICIT_HYPERLINKS() -> (b: LineBits)
        ensures
            b@ == 8,
    {
        LineBits { bits: 8 }
    }

    /// Whether the flag `HAS_IMPLICIT_HYPERLINKS` is set.
    pub fn has_implicit_hyperlinks(&self) -> (r: bool)
        ensures
            r == (self@ & 8 == 8),
    {
        self.has_flag(8)
    }

    /// Sets or clears the flag `HAS_IMPLICIT_HYPERLINKS`.
    pub fn set_has_implicit_hyperlinks(&mut self, value: bool)
        ensures
            final(self)@ == with_flags(old(self)@, 8, value),
    {
        self.set_flag(8, value)
    }

    /// Double-width line (DECDWL).
    #[allow(non_snake_case)]
    pub fn DOUBLE_WIDTH() -> (b: LineBits)
        ensures
            b@ == 16,
    {
        LineBits { bits: 16 }
    }

    /// Whether the flag `DOUBLE_WIDTH` is set.
    pub fn is_double_width(&self) -> (r: bool)
        ensures
            r == (self@ & 16 == 16),
    {
        self.has_flag(16)
    }

    /// Sets or clears the flag `DOUBLE_WIDTH`.
    pub fn set_double_width(&mut self, value: bool)
        ensures
            final(self)@ == with_flags(old(self)@, 16, value),
    {
        self.set_flag(16, value)
    }

    /// Top half of a double-height line (DECDHL).
    #[allow(non_snake_case)]
    pub fn DOUBLE_HEIGHT_TOP() -> (b: LineBits)
        ensures
            b@ == 32,
    {
        LineBits { bits: 32 }
    }

    /// Whether the flag `DOUBLE_HEIGHT_TOP` is set.
    pub fn is_double_height_top(&self) -> (r: bool)
        ensures
            r == (self@ & 32 == 32),
    {
        self.has_flag(32)
    }

    /// Sets or clears the flag `DOUBLE_HEIGHT_TOP`.
    pub fn set_double_height_top(&mut self, value: bool)
        ensures
            final(self)@ == with_flags(old(self)@, 32, value),
    {
        self.set_flag(32, value)
    }

    /// Bottom half of a double-height line (DECDHL).
    #[allow(non_snake_case)]
    pub fn DOUBLE_HEIGHT_BOTTOM() -> (b: LineBits)
        ensures
            b@ == 64,
    {
        LineBits { bits: 64 }
    }

    /// Whether the flag `DOUBLE_HEIGHT_BOTTOM` is set.
    pub fn is_double_height_bottom(&self) -> (r: bool)
        ensures
            r == (self@ & 64 == 64),
    {
        self.has_flag(64)
    }

    /// Sets or clears the flag `DOUBLE_HEIGHT_BOTTOM`.
    pub fn set_double_height_bottom(&mut self, value: bool)
        ensures
            final(self)@ == with_flags(old(self)@, 64, value),
    {
        self.set_flag(64, value)
    }

    /// Bidirectional text handling is enabled.
    #[allow(non_snake_case)]
    pub fn BIDI_ENABLED() -> (b: LineBits)
        ensures
            b@ == 1,
    {
        LineBits { bits: 1 }
    }

    /// Whether the flag `BIDI_ENABLED` is set.
    pub fn bidi_enabled(&self) -> (r: bool)
        ensures
            r == (self@ & 1 == 1),
    {
        self.has_flag(1)
    }

    /// Sets or clears the flag `BIDI_ENABLED`.
    pub fn set_bidi_enabled(&mut self, value: bool)
        ensures
            final(self)@ == with_flags(old(self)@, 1, value),
    {
        self.set_flag(1, value)
    }

    /// Right-to-left text direction.
    #[allow(non_snake_case)]
    pub fn RTL() -> (b: LineBits)
        ensures
            b@ == 128,
    {
        LineBits { bits: 128 }
    }

    /// Whether the flag `RTL` is set.
    pub fn is_rtl(&self) -> (r: bool)
        ensures
            r == (self@ & 128 == 128),
    {
        self.has_flag(128)
    }

    /// Sets or clears the flag `RTL`.
    pub fn set_rtl(&mut self, value: bool)
        ensures
            final(self)@ == with_flags(old(self)@, 128, value),
    {
        self.set_flag(128, value)
    }

    /// Text direction is detected automatically.
    #[allow(non_snake_case)]
    pub fn AUTO_DETECT_DIRECTION() -> (b: LineBits)
        ensures
            b@ == 256,
    {
        LineBits { bits: 256 }
    }

    /// Whether the flag `AUTO_DETECT_DIRECTION` is set.
    pub fn auto_detect_direction(&self) -> (r: bool)
        ensures
            r == (self@ & 256 == 256),
    {
        self.has_flag(256)
    }

    /// Sets or clears the flag `AUTO_DETECT_DIRECTION`.
    pub fn set_auto_detect_direction(&mut self, value: bool)
        ensures
            final(self)@ == with_flags(old(self)@, 256, value),
    {
        self.set_flag(256, value)
    }

    /// The line wraps onto the next one.
    #[allow(non_snake_case)]
    pub fn WRAPPED() -> (b: LineBits)
        ensures
            b@ == 512,
    {
        LineBits { bits: 512 }
    }

    /// Whether the flag `WRAPPED` is set.
    pub fn is_wrapped(&self) -> (r: bool)
        ensures
            r == (self@ & 512 == 512),
    {
        self.has_flag(512)
    }

    /// Sets or clears the flag `WRAPPED`.
    pub fn set_wrapped(&mut self, value: bool)
        ensures
            final(self)@ == with_flags(old(self)@, 512, value),
    {
        self.set_flag(512, value)
    }
}

} // verus!
