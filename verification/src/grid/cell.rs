//! A terminal cell: one grapheme cluster, its attributes and its display
//! width in columns.
use vstd::prelude::*;

use super::attributes::CellAttributes;
use super::color::Color;
#[allow(unused_imports)]
use unicode_width::UnicodeWidthStr;

verus! {

/// The display width, in columns, that the `unicode-width` crate reports for
/// a string (`UnicodeWidthStr::width`).
pub uninterp spec fn display_width(text: Seq<char>) -> usize;

/// Calls `UnicodeWidthStr::width` of the `unicode-width` crate. Its result
/// is taken to be `display_width` of the text; nothing more is claimed.
#[verifier::external_body]
fn str_display_width(text: &str) -> (w: usize)
    ensures
        w == display_width(text@),
{
    text.width()
}

/// Calls `ToString::to_string` on a `char`, which gives the one-character string.
#[verifier::external_body]
pub(crate) fn char_to_string(c: char) -> (s: String)
    ensures
        s@ == seq![c],
{
    c.to_string()
}

/// The width a cell takes for a measured display width `w`: `w` truncated to
/// a byte, and 1 where that is 0.
pub open spec fn cell_width_of(w: usize) -> u8 {
    if w as u8 == 0 {
        1
    } else {
        w as u8
    }
}

/// The mathematical content of a cell.
pub struct CellModel {
    pub text: Seq<char>,
    pub attrs: CellAttributes,
    pub width: u8,
}

/// The text of a blank cell: one space.
pub open spec fn blank_text() -> Seq<char> {
    seq![' ']
}

/// A blank cell with attributes `attrs`.
pub open spec fn blank_model(attrs: CellAttributes) -> CellModel {
    CellModel { text: blank_text(), attrs, width: 1 }
}

/// A terminal cell.
#[derive(Debug, Clone, PartialEq, Eq)]
pub struct Cell {
    text: String,
    /// Display attributes.
    pub attrs: CellAttributes,
    width: u8,
}

impl View for Cell {
    type V = CellModel;

    closed spec fn view(&self) -> CellModel {
        CellModel { text: self.text@, attrs: self.attrs, width: self.width }
    }
}

/// A string holding a single space.
fn space_string() -> (s: String)
    ensures
        s@ == blank_text(),
{
    let s = " ".to_owned();
    proof {
        reveal_strlit(" ");
    }
    s
}

impl Default for Cell {
    fn default() -> (c: Cell)
        ensures
            c@ == blank_model(CellAttributes::spec_default()),
    {
        Cell::blank()
    }
}

impl Cell {
    /// A blank cell: a space with default attributes, width 1.
    pub fn blank() -> (c: Cell)
        ensures
            c@ == blank_model(CellAttributes::spec_default()),
    {
        Cell { text: space_string(), attrs: CellAttributes::default(), width: 1 }
    }

    /// A blank cell with attributes `attrs`.
    pub fn blank_with_attrs(attrs: CellAttributes) -> (c: Cell)
        ensures
            c@ == blank_model(attrs),
    {
        Cell { text: space_string(), attrs, width: 1 }
    }

    /// A cell holding `text` with attributes `attrs`, given the display width
    /// `measured` of the text.
    pub fn with_measured_width(text: &str, attrs: CellAttributes, measured: usize) -> (c: Cell)
        ensures
            c@ == (CellModel { text: text@, attrs, width: cell_width_of(measured) }),
    {
        let w = measured as u8;
        Cell { text: text.to_owned(), attrs, width: if w == 0 { 1 } else { w } }
    }

    /// A cell holding `text` with default attributes; its width is the
    /// display width of the text (at least 1).
    pub fn new(text: &str) -> (c: Cell)
        ensures
            c@ == (CellModel {
                text: text@,
                attrs: CellAttributes::spec_default(),
                width: cell_width_of(display_width(text@)),
            }),
    {
        let w = str_display_width(text);
        Cell::with_measured_width(text, CellAttributes::default(), w)
    }

    /// A cell holding `text` with attributes `attrs`; its width is the
    /// display width of the text (at least 1).
    pub fn with_attrs_auto(text: &str, attrs: CellAttributes) -> (c: Cell)
        ensures
            c@ == (CellModel { text: text@, attrs, width: cell_width_of(display_width(text@)) }),
    {
        let w = str_display_width(text);
        Cell::with_measured_width(text, attrs, w)
    }

    /// A cell with the given text, attributes and width.
    pub fn new_with_attrs(text: &str, attrs: CellAttributes, width: u8) -> (c: Cell)
        ensures
            c@ == (CellModel { text: text@, attrs, width }),
    {
        Cell { text: text.to_owned(), attrs, width }
    }

    /// The text.
    pub fn text(&self) -> (s: &str)
        ensures
            s@ == self@.text,
    {
        self.text.as_str()
    }

    /// The text (same as `text`).
    pub fn str(&self) -> (s: &str)
        ensures
            s@ == self@.text,
    {
        self.text.as_str()
    }

    /// Sets the text; the width becomes its display width (at least 1).
    pub fn set_text(&mut self, text: &str)
        ensures
            final(self)@ == (CellModel {
                text: text@,
                attrs: old(self)@.attrs,
                width: cell_width_of(display_width(text@)),
            }),
    {
        self.text = text.to_owned();
        let w = str_display_width(text) as u8;
        self.width = if w == 0 { 1 } else { w };
    }

    /// Sets the text and the width.
    pub fn set_str(&mut self, text: String, width: u8)
        ensures
            final(self)@ == (CellModel { text: text@, attrs: old(self)@.attrs, width }),
    {
        self.text = text;
        self.width = width;
    }

    /// The width in columns.
    pub fn width(&self) -> (w: u8)
        ensures
            w == self@.width,
    {
        self.width
    }

    /// Sets the width.
    pub fn set_width(&mut self, width: u8)
        ensures
            final(self)@ == (CellModel { width, ..old(self)@ }),
    {
        self.width = width;
    }

    /// Whether the text is a single space and the attributes are the default.
    pub fn is_blank(&self) -> (r: bool)
        ensures
            r == (self@.text == blank_text() && self@.attrs == CellAttributes::spec_default()),
    {
        let s = self.text.as_str();
        let text_is_space = s.unicode_len() == 1 && s.get_char(0) == ' ';
        proof {
            if s@.len() == 1 && s@[0] == ' ' {
                assert(s@ =~= blank_text());
            }
        }
        text_is_space && self.attrs.equals(&CellAttributes::default())
    }

    /// Whether the cell is two or more columns wide.
    pub fn is_double_width(&self) -> (r: bool)
        ensures
            r == (self@.width >= 2),
    {
        self.width >= 2
    }

    /// Resets to a blank cell with default attributes.
    pub fn reset(&mut self)
        ensures
            final(self)@ == blank_model(CellAttributes::spec_default()),
    {
        self.text = space_string();
        self.attrs = CellAttributes::default();
        self.width = 1;
    }

    /// Resets to a blank cell with attributes `attrs`.
    pub fn reset_with_attrs(&mut self, attrs: CellAttributes)
        ensures
            final(self)@ == blank_model(attrs),
    {
        self.text = space_string();
        self.attrs = attrs;
        self.width = 1;
    }

    /// A deep copy.
    pub fn clone_cell(&self) -> (c: Cell)
        ensures
            c@ == self@,
    {
        Cell { text: self.text.clone(), attrs: self.attrs.copy(), width: self.width }
    }

    /// A cell holding `text` (width from its display width) with foreground `color`.
    pub fn with_foreground(text: &str, color: Color) -> (c: Cell)
        ensures
            c@.text == text@,
            c@.width == cell_width_of(display_width(text@)),
            c@.attrs.fg() == color,
            c@.attrs.attr_bits() == 0,
            c@.attrs.bg() == Color::DefaultBackground,
            c@.attrs.ul_color() == None::<Color>,
    {
        let mut cell = Cell::new(text);
        proof {
            CellAttributes::lemma_default_fields();
        }
        cell.attrs.set_foreground(color);
        cell
    }

    /// A cell holding `text` (width from its display width) with background `color`.
    pub fn with_background(text: &str, color: Color) -> (c: Cell)
        ensures
            c@.text == text@,
            c@.width == cell_width_of(display_width(text@)),
            c@.attrs.bg() == color,
            c@.attrs.attr_bits() == 0,
            c@.attrs.fg() == Color::DefaultForeground,
            c@.attrs.ul_color() == None::<Color>,
    {
        let mut cell = Cell::new(text);
        proof {
            CellAttributes::lemma_default_fields();
        }
        cell.attrs.set_background(color);
        cell
    }

    /// A cell holding the character `c`, with default attributes.
    pub fn from_char(c: char) -> (cell: Cell)
        ensures
            cell@ == (CellModel {
                text: seq![c],
                attrs: CellAttributes::spec_default(),
                width: cell_width_of(display_width(seq![c])),
            }),
    {
        let s = char_to_string(c);
        Cell::new(s.as_str())
    }

    /// A cell holding the character `c` with attributes `attrs`.
    pub fn from_char_with_attrs(c: char, attrs: CellAttributes) -> (cell: Cell)
        ensures
            cell@ == (CellModel { text: seq![c], attrs, width: cell_width_of(display_width(seq![c])) }),
    {
        let s = char_to_string(c);
        Cell::with_attrs_auto(s.as_str(), attrs)
    }

    /// The attributes.
    pub fn attrs(&self) -> (a: &CellAttributes)
        ensures
            *a == self@.attrs,
    {
        &self.attrs
    }

    /// The attributes, for update in place.
    pub fn attrs_mut(&mut self) -> (a: &mut CellAttributes)
        ensures
            *a == old(self)@.attrs,
            final(self)@ == (CellModel { attrs: *final(a), ..old(self)@ }),
    {
        &mut self.attrs
    }

    /// Sets the attributes.
    pub fn set_attrs(&mut self, attrs: CellAttributes)
        ensures
            final(self)@ == (CellModel { attrs, ..old(self)@ }),
    {
        self.attrs = attrs;
    }
}

} // verus!
