//! The terminal state: the screen (and the alternate screen), the cursor,
//! the attributes for new cells, margins, modes, the title, deferred
//! wrapping, and the bookkeeping that detects a shell redrawing its input
//! line after scrolling.
use vstd::prelude::*;

use core::ops::Range;

use super::attributes::CellAttributes;
use super::cell::{blank_model, Cell, CellModel};
use super::cursor::{cap_below, Cursor, CursorShape};
use super::line::{next_seqno, Line};
use super::linebits::with_flags;
use super::screen::{blank_content, cleared_content, content, resized_content, LineContent, Screen, ScreenModel};
use super::stable_row_index::{PhysRowIndex, VisibleRowIndex};

verus! {

/// A scroll region: rows `top` to `bottom`, both included.
#[derive(Debug, Clone, Copy, PartialEq, Eq, Structural)]
pub struct ScrollRegion {
    /// First row (included, from 0).
    pub top: usize,
    /// Last row (included, from 0).
    pub bottom: usize,
}

impl ScrollRegion {
    /// The region of rows `top..=bottom`.
    pub fn new(top: usize, bottom: usize) -> (r: ScrollRegion)
        ensures
            r == (ScrollRegion { top, bottom }),
    {
        ScrollRegion { top, bottom }
    }

    /// Whether `row` lies in the region.
    pub fn contains(&self, row: usize) -> (r: bool)
        ensures
            r == (self.top <= row && row <= self.bottom),
    {
        row >= self.top && row <= self.bottom
    }

    /// The number of rows: `bottom - top + 1` (1 when `bottom < top`).
    pub fn height(&self) -> (h: usize)
        requires
            !(self.top == 0 && self.bottom == usize::MAX),
        ensures
            h == (if self.bottom >= self.top { self.bottom - self.top } else { 0 }) + 1,
    {
        self.bottom.saturating_sub(self.top) + 1
    }
}

/// Terminal modes, as a set of bits.
#[derive(Debug, Clone, Copy, PartialEq, Eq, Structural)]
pub struct TerminalModes {
    bits: u32,
}

impl View for TerminalModes {
    type V = u32;

    closed spec fn view(&self) -> u32 {
        self.bits
    }
}

impl Default for TerminalModes {
    /// Automatic wrapping on, every other mode off.
    fn default() -> (m: TerminalModes)
        ensures
            m@ == 2,
    {
        TerminalModes { bits: 2 }
    }
}

impl core::ops::BitOr for TerminalModes {
    type Output = TerminalModes;

    fn bitor(self, rhs: TerminalModes) -> (r: TerminalModes)
        ensures
            r@ == self@ | rhs@,
    {
        TerminalModes { bits: self.bits | rhs.bits }
    }
}

impl vstd::std_specs::ops::BitOrSpecImpl for TerminalModes {
    open spec fn obeys_bitor_spec() -> bool {
        true
    }

    open spec fn bitor_req(self, rhs: TerminalModes) -> bool {
        true
    }

    closed spec fn bitor_spec(self, rhs: TerminalModes) -> TerminalModes {
        TerminalModes { bits: self.bits | rhs.bits }
    }
}

impl TerminalModes {
    /// The mode set with exactly the given bits.
    pub fn from_bits_retain(bits: u32) -> (m: TerminalModes)
        ensures
            m@ == bits,
    {
        TerminalModes { bits }
    }

    /// The raw bits.
    pub fn bits(&self) -> (b: u32)
        ensures
            b == self@,
    {
        self.bits
    }

    /// No mode.
    pub fn empty() -> (m: TerminalModes)
        ensures
            m@ == 0,
    {
        TerminalModes { bits: 0 }
    }

    /// Whether no mode is set.
    pub fn is_empty(&self) -> (r: bool)
        ensures
            r == (self@ == 0),
    {
        self.bits == 0
    }

    /// Whether every mode of `other` is set here.
    pub fn contains(&self, other: TerminalModes) -> (r: bool)
        ensures
            r == (self@ & other@ == other@),
    {
        self.bits & other.bits == other.bits
    }

    /// Sets every mode of `other`.
    pub fn insert(&mut self, other: TerminalModes)
        ensures
            final(self)@ == old(self)@ | other@,
    {
        self.bits = self.bits | other.bits;
    }

    /// Clears every mode of `other`.
    pub fn remove(&mut self, other: TerminalModes)
        ensures
            final(self)@ == old(self)@ & !other@,
    {
        self.bits = self.bits & !other.bits;
    }

    /// Sets or clears every mode of `other`.
    pub fn set(&mut self, other: TerminalModes, value: bool)
        ensures
            final(self)@ == (if value { old(self)@ | other@ } else { old(self)@ & !other@ }),
    {
        if value {
            self.insert(other);
        } else {
            self.remove(other);
        }
    }

    /// Cursor keys in application mode (DECCKM).
    #[allow(non_snake_case)]
    pub fn APPLICATION_CURSOR() -> (m: TerminalModes)
        ensures
            m@ == 1,
    {
        TerminalModes { bits: 1 }
    }

    /// Automatic wrapping at the right margin (DECAWM).
    #[allow(non_snake_case)]
    pub fn AUTO_WRAP() -> (m: TerminalModes)
        ensures
            m@ == 2,
    {
        TerminalModes { bits: 2 }
    }

    /// Insert mode (IRM).
    #[allow(non_snake_case)]
    pub fn INSERT() -> (m: TerminalModes)
        ensures
            m@ == 4,
    {
        TerminalModes { bits: 4 }
    }

    /// Line feed also returns the carriage (LNM).
    #[allow(non_snake_case)]
    pub fn LINE_FEED_NEW_LINE() -> (m: TerminalModes)
        ensures
            m@ == 8,
    {
        TerminalModes { bits: 8 }
    }

    /// Bracketed paste.
    #[allow(non_snake_case)]
    pub fn BRACKETED_PASTE() -> (m: TerminalModes)
        ensures
            m@ == 16,
    {
        TerminalModes { bits: 16 }
    }

    /// Focus reporting.
    #[allow(non_snake_case)]
    pub fn FOCUS_REPORTING() -> (m: TerminalModes)
        ensures
            m@ == 32,
    {
        TerminalModes { bits: 32 }
    }

    /// Mouse reporting.
    #[allow(non_snake_case)]
    pub fn MOUSE_REPORTING() -> (m: TerminalModes)
        ensures
            m@ == 64,
    {
        TerminalModes { bits: 64 }
    }

    /// The alternate screen is shown.
    #[allow(non_snake_case)]
    pub fn ALTERNATE_SCREEN() -> (m: TerminalModes)
        ensures
            m@ == 128,
    {
        TerminalModes { bits: 128 }
    }
}

/// A line with its wrapped flag set.
pub open spec fn wrapped_content(c: LineContent) -> LineContent {
    LineContent { bits: with_flags(c.bits, 512, true), ..c }
}

/// The number of cells a line reports once its storage is a vector.
pub open spec fn vec_len(c: LineContent) -> nat {
    if c.clustered {
        c.cells.len()
    } else {
        c.len
    }
}

/// A line after `set_cell(x, cell)`: vector storage, the cell replaced when
/// `x` is inside the line (and then the sequence number bumped).
pub open spec fn content_set_cell(c: LineContent, x: int, cell: CellModel) -> LineContent {
    if 0 <= x < c.cells.len() {
        LineContent {
            cells: c.cells.update(x, cell),
            len: c.cells.len(),
            clustered: false,
            seqno: next_seqno(c.seqno),
            ..c
        }
    } else {
        LineContent { len: c.cells.len(), clustered: false, ..c }
    }
}

/// A line after a cell is written at column `x`: the cell replaced where
/// `x` is inside the line, else the line first padded with blank cells to
/// `x + 1` cells.
pub open spec fn content_written(c: LineContent, x: int, cell: CellModel) -> LineContent {
    if x < c.len {
        content_set_cell(c, x, cell)
    } else {
        content_set_cell(resized_content(c, (x + 1) as nat, blank_model(CellAttributes::spec_default())), x, cell)
    }
}

/// A line with the cells of columns `col..end` that lie inside it blanked,
/// one column after another.
pub open spec fn content_blanked(c: LineContent, col: int, end: int) -> LineContent
    decreases end - col,
{
    if col >= end {
        c
    } else {
        let next = if col < c.len {
            content_set_cell(c, col, blank_model(CellAttributes::spec_default()))
        } else {
            c
        };
        content_blanked(next, col + 1, end)
    }
}

/// A line emptied and then padded with blank cells to `cols` cells.
pub open spec fn content_erased(c: LineContent, cols: nat) -> LineContent {
    resized_content(cleared_content(c), cols, blank_model(CellAttributes::spec_default()))
}

/// The screen with the line shown at viewport row `row` (when it is stored)
/// changed by `f`.
pub open spec fn row_changed(m: ScreenModel, row: int, f: spec_fn(LineContent) -> LineContent) -> ScreenModel {
    match m.visible_to_phys(row) {
        Some(p) => if p < m.lines.len() {
            ScreenModel { lines: m.lines.update(p, f(m.lines[p])), ..m }
        } else {
            m
        },
        None => m,
    }
}

/// The screen with the lines shown at viewport rows `lo..hi` (those that are
/// stored) changed by `f`.
pub open spec fn rows_changed(m: ScreenModel, lo: int, hi: int, f: spec_fn(LineContent) -> LineContent) -> ScreenModel {
    ScreenModel {
        lines: Seq::new(
            m.lines.len(),
            |p: int|
                if m.scrollback() + lo <= p < m.scrollback() + hi && p < m.scrollback() + m.rows {
                    f(m.lines[p])
                } else {
                    m.lines[p]
                },
        ),
        ..m
    }
}

/// The store positions `lo..=hi` appended to `sources` in order, each
/// one only where it is not there yet.
pub open spec fn recorded(sources: Seq<usize>, lo: int, hi: int) -> Seq<usize>
    decreases hi + 1 - lo,
{
    if lo > hi {
        sources
    } else {
        let next = if sources.contains(lo as usize) { sources } else { sources.push(lo as usize) };
        recorded(next, lo + 1, hi)
    }
}

/// The screen with every line whose store position is in `sources` and that
/// is shown in the viewport cleared.
pub open spec fn cleared_sources(m: ScreenModel, sources: Seq<usize>) -> ScreenModel {
    ScreenModel {
        lines: Seq::new(
            m.lines.len(),
            |p: int|
                if sources.contains(p as usize) && m.scrollback() <= p < m.scrollback() + m.rows {
                    cleared_content(m.lines[p])
                } else {
                    m.lines[p]
                },
        ),
        ..m
    }
}

/// What is observable of a terminal state.
pub struct TermModel {
    pub screen: ScreenModel,
    pub alt: Option<ScreenModel>,
    pub cursor: Cursor,
    pub saved: Option<Cursor>,
    pub attrs: CellAttributes,
    pub tb: Range<usize>,
    pub lr: Range<usize>,
    pub modes: u32,
    pub title: Seq<char>,
    pub wrap_next: bool,
    pub sources: Seq<usize>,
    pub input_start: Option<usize>,
}

impl TermModel {
    /// The redraw check run when the cursor returns to column 0 of viewport
    /// row `target`: if input started on that row and lines were scrolled
    /// away since, the recorded lines still shown are cleared and the record
    /// starts over.
    pub open spec fn redrawn(self, target: usize) -> TermModel {
        if self.input_start == Some(target) && self.sources.len() > 0 {
            TermModel {
                screen: cleared_sources(self.screen, self.sources),
                sources: Seq::empty(),
                input_start: None,
                ..self
            }
        } else {
            self
        }
    }

    /// `set_cursor_pos(x, y)`: the position capped to the viewport, the
    /// redraw check when `x` is 0, deferred wrapping cancelled.
    pub open spec fn cursor_moved(self, x: usize, y: usize) -> TermModel {
        let nx = cap_below(x as int, self.screen.cols as int) as usize;
        let ny = cap_below(y as int, self.screen.rows as int) as usize;
        let m = if x == 0 { self.redrawn(ny) } else { self };
        TermModel { cursor: Cursor { x: nx, y: ny, ..m.cursor }, wrap_next: false, ..m }
    }

    /// `scroll_up(n)`: while input is being tracked, the store positions of
    /// the rows from where input started down to the cursor are recorded;
    /// then the scroll region scrolls up by `n`.
    pub open spec fn scrolled_up(self, n: usize) -> TermModel {
        let sources = match self.input_start {
            Some(s) => recorded(
                self.sources,
                self.screen.scrollback() + s,
                self.screen.scrollback() + self.cursor.y,
            ),
            None => self.sources,
        };
        TermModel {
            sources,
            screen: self.screen.scrolled_up_within(self.tb.start as int, self.tb.end as int, n as int),
            ..self
        }
    }

    /// The counts of `scroll_up(n)` stay within `usize`.
    pub open spec fn scroll_up_fits(self, n: usize) -> bool {
        let top = self.tb.start as int;
        let bottom = self.tb.end as int;
        let a = if (n as int) < bottom - top { n as int } else { bottom - top };
        &&& (self.input_start matches Some(s) && s <= self.cursor.y ==> self.screen.scrollback() + self.cursor.y
            <= usize::MAX)
        &&& (top < bottom && n > 0 && top == 0 && bottom == self.screen.rows ==> self.screen.offset + a
            <= usize::MAX)
        &&& (top < bottom && n > 0 && !(top == 0 && bottom == self.screen.rows) ==> self.screen.scrollback()
            + bottom + a <= usize::MAX)
    }

    /// Whether the cursor is on the last row of the scroll region.
    pub open spec fn at_bottom_margin(self) -> bool {
        self.cursor.y == (if self.tb.end > 0 { self.tb.end - 1 } else { 0 })
    }

    /// `new_line(first)`: at the bottom of the scroll region the region
    /// scrolls up one line and the cursor keeps its row, else it moves down
    /// one row (capped to the viewport); the column goes to the left margin
    /// when `first`; deferred wrapping is cancelled.
    pub open spec fn new_lined(self, first: bool) -> TermModel {
        let x = if first { self.lr.start } else { self.cursor.x };
        let y = self.cursor.y as int;
        let m = if self.at_bottom_margin() { self.scrolled_up(1) } else { self };
        let ny = if self.at_bottom_margin() { y } else { y + 1 };
        TermModel {
            cursor: Cursor { x, y: cap_below(ny, m.screen.rows as int) as usize, ..m.cursor },
            wrap_next: false,
            ..m
        }
    }

    /// The counts of `new_line` stay within `usize`.
    pub open spec fn new_line_fits(self) -> bool {
        if self.at_bottom_margin() {
            self.scroll_up_fits(1)
        } else {
            self.cursor.y < usize::MAX
        }
    }

    /// `write_cell(cell)`: a pending wrap first marks the cursor's line as
    /// wrapped and moves to the start of the next line; input tracking starts
    /// when writing at column 0; the cell is written at the cursor (the line
    /// padded with blank cells as needed); then the cursor advances by the
    /// cell's width, or, at the right margin, stays and the wrap is deferred
    /// to the next cell (when automatic wrapping is on).
    pub open spec fn cell_written(self, cell: CellModel) -> TermModel {
        let m1 = if self.wrap_next {
            let marked = TermModel {
                screen: row_changed(
                    self.screen,
                    (self.cursor.y as isize) as int,
                    |c: LineContent| wrapped_content(c),
                ),
                ..self
            };
            TermModel { wrap_next: false, ..marked.new_lined(true) }
        } else {
            self
        };
        let x = m1.cursor.x;
        let y = m1.cursor.y;
        let m2 = if x == 0 && m1.input_start is None {
            TermModel { input_start: Some(y), ..m1 }
        } else {
            m1
        };
        let m3 = TermModel {
            screen: row_changed(m2.screen, (y as isize) as int, |c: LineContent| content_written(c, x as int, cell)),
            ..m2
        };
        if x + cell.width < m3.lr.end {
            TermModel {
                cursor: Cursor { x: (x + cell.width) as usize, ..m3.cursor },
                wrap_next: false,
                ..m3
            }
        } else {
            TermModel { wrap_next: m3.modes & 2 == 2, ..m3 }
        }
    }

    /// `erase_display(mode)`: 0 erases from the cursor to the end of the
    /// viewport, 1 from the start of the viewport through the cursor, 2 the
    /// whole viewport (erased lines become full-width blank lines, and the
    /// cursor's own line is blanked cell by cell), 3 clears the screen and
    /// its scrollback; any other mode changes nothing.
    pub open spec fn display_erased(self, mode: u16) -> TermModel {
        let cx = self.cursor.x as int;
        let cy = self.cursor.y as int;
        let cols = self.screen.cols;
        let rows = self.screen.rows as int;
        let erase = |c: LineContent| content_erased(c, cols);
        let screen = if mode == 0 {
            rows_changed(
                row_changed(self.screen, (cy as isize) as int, |c: LineContent| content_blanked(c, cx, cols as int)),
                cy + 1,
                rows,
                erase,
            )
        } else if mode == 1 {
            row_changed(rows_changed(self.screen, 0, cy, erase), cy, |c: LineContent| content_blanked(c, 0, cx + 1))
        } else if mode == 2 {
            rows_changed(self.screen, 0, rows, erase)
        } else if mode == 3 {
            self.screen.cleared().scrollback_cleared()
        } else {
            self.screen
        };
        TermModel { screen, ..self }
    }

    /// `erase_line(mode)`: 0 blanks the cursor's line from the cursor to the
    /// right edge, 1 from its start through the cursor, 2 erases it to a
    /// full-width blank line; any other mode changes nothing.
    pub open spec fn line_erased(self, mode: u16) -> TermModel {
        let cx = self.cursor.x as int;
        let row = (self.cursor.y as isize) as int;
        let cols = self.screen.cols;
        let screen = if mode == 0 {
            row_changed(self.screen, row, |c: LineContent| content_blanked(c, cx, cols as int))
        } else if mode == 1 {
            row_changed(self.screen, row, |c: LineContent| content_blanked(c, 0, cx + 1))
        } else if mode == 2 {
            row_changed(self.screen, row, |c: LineContent| content_erased(c, cols))
        } else {
            self.screen
        };
        TermModel { screen, ..self }
    }

    /// `save_cursor()`.
    pub open spec fn cursor_saved(self) -> TermModel {
        TermModel { saved: Some(self.cursor), ..self }
    }

    /// `restore_cursor()`.
    pub open spec fn cursor_restored(self) -> TermModel {
        match self.saved {
            Some(c) => TermModel { cursor: c, ..self },
            None => self,
        }
    }

    /// `switch_to_alternate_screen()`.
    pub open spec fn alternate_shown(self) -> TermModel {
        TermModel {
            screen: match self.alt {
                Some(a) => a,
                None => TermModel::fresh_screen(self.screen.rows, self.screen.cols, self.screen.max_scrollback),
            },
            alt: Some(self.screen),
            modes: self.modes | 128,
            ..self
        }
    }

    /// `switch_to_main_screen()`.
    pub open spec fn main_shown(self) -> TermModel {
        match self.alt {
            Some(a) => TermModel { screen: a, alt: Some(self.screen), modes: self.modes & !128u32, ..self },
            None => self,
        }
    }

    /// `set_scroll_region(top, bottom)`.
    pub open spec fn region_set(self, top: usize, bottom: usize) -> TermModel {
        if top <= bottom && bottom < self.screen.rows {
            TermModel { tb: top..(bottom + 1) as usize, ..self }
        } else {
            self
        }
    }

    /// What `scroll_region()` reports.
    pub open spec fn region_reported(self) -> Option<ScrollRegion> {
        if self.tb.start == 0 && self.tb.end == self.screen.rows {
            None
        } else {
            Some(
                ScrollRegion {
                    top: self.tb.start,
                    bottom: if self.tb.end > 0 { (self.tb.end - 1) as usize } else { 0 },
                },
            )
        }
    }

    /// The screen model of a new screen of this many rows and columns.
    pub open spec fn fresh_screen(rows: nat, cols: nat, max_scrollback: nat) -> ScreenModel {
        ScreenModel {
            lines: Seq::new(rows, |_i: int| blank_content()),
            rows,
            cols,
            max_scrollback,
            offset: 0,
        }
    }
}

/// The terminal state.
#[derive(Debug)]
pub struct TerminalState {
    screen: Screen,
    alt_screen: Option<Screen>,
    cursor: Cursor,
    saved_cursor: Option<Cursor>,
    attrs: CellAttributes,
    top_and_bottom_margins: Range<usize>,
    left_and_right_margins: Range<usize>,
    modes: TerminalModes,
    title: String,
    wrap_next: bool,
    scroll_source_rows: Vec<usize>,
    input_start_visible_row: Option<usize>,
}

impl TerminalState {
    /// The current screen.
    pub closed spec fn screen_view(&self) -> Screen {
        self.screen
    }

    /// The other screen, once the alternate screen has been used.
    pub closed spec fn alt_view(&self) -> Option<Screen> {
        self.alt_screen
    }

    /// The observable state.
    pub closed spec fn model(&self) -> TermModel {
        TermModel {
            screen: self.screen.model(),
            alt: match self.alt_screen {
                Some(s) => Some(s.model()),
                None => None,
            },
            cursor: self.cursor,
            saved: self.saved_cursor,
            attrs: self.attrs,
            tb: self.top_and_bottom_margins,
            lr: self.left_and_right_margins,
            modes: self.modes@,
            title: self.title@,
            wrap_next: self.wrap_next,
            sources: self.scroll_source_rows@,
            input_start: self.input_start_visible_row,
        }
    }

    /// Internal consistency: both screens are well formed, the left margin is
    /// column 0, and no store position is recorded twice.
    pub closed spec fn wf(&self) -> bool {
        &&& self.screen.wf()
        &&& (self.alt_screen matches Some(s) ==> s.wf())
        &&& self.left_and_right_margins.start == 0
        &&& self.scroll_source_rows@.no_duplicates()
    }

    /// The consistency facts callers rely on.
    pub proof fn lemma_wf(&self)
        requires
            self.wf(),
        ensures
            self.screen_view().wf(),
            self.model().screen == self.screen_view().model(),
            self.model().lr.start == 0,
            self.model().sources.no_duplicates(),
            self.model().screen.rows + self.model().screen.max_scrollback < isize::MAX,
            self.model().screen.lines.len() <= self.model().screen.rows + self.model().screen.max_scrollback + 1,
    {
        self.screen.lemma_wf_lines();
    }
}

impl Clone for TerminalState {
    /// A copy of the state; the cursor, attributes, margins, modes, title and
    /// bookkeeping are copied exactly.
    fn clone(&self) -> (c: TerminalState)
        ensures
            c.model().cursor == self.model().cursor,
            c.model().saved == self.model().saved,
            c.model().attrs == self.model().attrs,
            c.model().tb == self.model().tb,
            c.model().lr == self.model().lr,
            c.model().modes == self.model().modes,
            c.model().title == self.model().title,
            c.model().wrap_next == self.model().wrap_next,
            c.model().input_start == self.model().input_start,
    {
        let saved_cursor = match &self.saved_cursor {
            Some(c) => Some(c.copy()),
            None => None,
        };
        TerminalState {
            screen: self.screen.clone(),
            alt_screen: self.alt_screen.clone(),
            cursor: self.cursor.copy(),
            saved_cursor,
            attrs: self.attrs.copy(),
            top_and_bottom_margins: self.top_and_bottom_margins.start..self.top_and_bottom_margins.end,
            left_and_right_margins: self.left_and_right_margins.start..self.left_and_right_margins.end,
            modes: self.modes,
            title: self.title.clone(),
            wrap_next: self.wrap_next,
            scroll_source_rows: self.scroll_source_rows.clone(),
            input_start_visible_row: self.input_start_visible_row,
        }
    }
}

impl TerminalState {
    /// A state with an empty screen of `rows` by `cols`, the cursor at the
    /// origin, no scroll region, automatic wrapping on.
    pub fn new(rows: usize, cols: usize, max_scrollback: usize) -> (s: TerminalState)
        requires
            rows + max_scrollback < isize::MAX,
        ensures
            s.wf(),
            s.model() == (TermModel {
                screen: ScreenModel {
                    lines: Seq::new(rows as nat, |_i: int| blank_content()),
                    rows: rows as nat,
                    cols: cols as nat,
                    max_scrollback: max_scrollback as nat,
                    offset: 0,
                },
                alt: None,
                cursor: Cursor::spec_default(),
                saved: None,
                attrs: CellAttributes::spec_default(),
                tb: 0..rows,
                lr: 0..cols,
                modes: 2,
                title: Seq::empty(),
                wrap_next: false,
                sources: Seq::empty(),
                input_start: None,
            }),
    {
        TerminalState {
            screen: Screen::new(rows, cols, max_scrollback),
            alt_screen: None,
            cursor: Cursor::default(),
            saved_cursor: None,
            attrs: CellAttributes::default(),
            top_and_bottom_margins: 0..rows,
            left_and_right_margins: 0..cols,
            modes: TerminalModes::default(),
            title: String::new(),
            wrap_next: false,
            scroll_source_rows: Vec::new(),
            input_start_visible_row: None,
        }
    }

    /// The current screen.
    pub fn screen(&self) -> (s: &Screen)
        ensures
            *s == self.screen_view(),
            s.model() == self.model().screen,
    {
        &self.screen
    }

    /// The current screen, for update in place.
    pub fn screen_mut(&mut self) -> (s: &mut Screen)
        ensures
            *s == old(self).screen_view(),
            final(self).screen_view() == *final(s),
            final(self).alt_view() == old(self).alt_view(),
            final(self).model() == (TermModel { screen: final(s).model(), ..old(self).model() }),
            old(self).wf() && final(s).wf() ==> final(self).wf(),
    {
        &mut self.screen
    }

    /// The cursor.
    pub fn cursor(&self) -> (c: &Cursor)
        ensures
            *c == self.model().cursor,
    {
        &self.cursor
    }

    /// The cursor, for update in place.
    pub fn cursor_mut(&mut self) -> (c: &mut Cursor)
        ensures
            *c == old(self).model().cursor,
            final(self).model() == (TermModel { cursor: *final(c), ..old(self).model() }),
            final(self).screen_view() == old(self).screen_view(),
            final(self).alt_view() == old(self).alt_view(),
            old(self).wf() ==> final(self).wf(),
    {
        &mut self.cursor
    }

    /// The attributes for new cells.
    pub fn attrs(&self) -> (a: &CellAttributes)
        ensures
            *a == self.model().attrs,
    {
        &self.attrs
    }

    /// The attributes for new cells, for update in place.
    pub fn attrs_mut(&mut self) -> (a: &mut CellAttributes)
        ensures
            *a == old(self).model().attrs,
            final(self).model() == (TermModel { attrs: *final(a), ..old(self).model() }),
            final(self).screen_view() == old(self).screen_view(),
            final(self).alt_view() == old(self).alt_view(),
            old(self).wf() ==> final(self).wf(),
    {
        &mut self.attrs
    }

    /// Sets the attributes for new cells, here and on the cursor.
    pub fn set_attrs(&mut self, attrs: CellAttributes)
        ensures
            final(self).model() == (TermModel {
                attrs,
                cursor: Cursor { attrs, ..old(self).model().cursor },
                ..old(self).model()
            }),
            final(self).screen_view() == old(self).screen_view(),
            final(self).alt_view() == old(self).alt_view(),
            old(self).wf() ==> final(self).wf(),
    {
        self.attrs = attrs.copy();
        self.cursor.attrs = attrs;
    }

    /// The viewport size, as (columns, rows).
    pub fn size(&self) -> (s: (usize, usize))
        ensures
            s == (self.model().screen.cols as usize, self.model().screen.rows as usize),
    {
        (self.screen.cols(), self.screen.rows())
    }

    /// Viewport rows.
    pub fn rows(&self) -> (n: usize)
        ensures
            n == self.model().screen.rows,
    {
        self.screen.rows()
    }

    /// Viewport columns.
    pub fn cols(&self) -> (n: usize)
        ensures
            n == self.model().screen.cols,
    {
        self.screen.cols()
    }
}

impl TerminalState {
    /// Clears the recorded lines still shown when the redraw check fires for
    /// viewport row `target_vis_row` (see `TermModel::redrawn`).
    fn handle_redraw_detection(&mut self, target_vis_row: usize)
        requires
            old(self).wf(),
        ensures
            final(self).wf(),
            final(self).model() == old(self).model().redrawn(target_vis_row),
            final(self).alt_view() == old(self).alt_view(),
    {
        match self.input_start_visible_row {
            Some(input_start) => {
                if target_vis_row == input_start && self.scroll_source_rows.len() > 0 {
                    proof {
                        self.lemma_wf();
                    }
                    let visible_start = self.screen.scrollback_lines();
                    let visible_end = visible_start + self.rows();
                    let ghost orig = self.screen.model();
                    let ghost srcs = self.scroll_source_rows@;
                    proof {
                        assert(srcs.take(0) =~= Seq::<usize>::empty());
                        assert(orig.lines =~= Seq::new(
                            orig.lines.len(),
                            |p: int|
                                if srcs.take(0).contains(p as usize) && orig.scrollback() <= p
                                    < orig.scrollback() + orig.rows {
                                    cleared_content(orig.lines[p])
                                } else {
                                    orig.lines[p]
                                },
                        ));
                    }
                    let mut i: usize = 0;
                    while i < self.scroll_source_rows.len()
                        invariant
                            i <= srcs.len(),
                            srcs == self.scroll_source_rows@,
                            srcs.no_duplicates(),
                            self.screen.wf(),
                            visible_start == orig.scrollback(),
                            visible_end == orig.scrollback() + orig.rows,
                            self.screen.model() == (ScreenModel {
                                lines: Seq::new(
                                    orig.lines.len(),
                                    |p: int|
                                        if srcs.take(i as int).contains(p as usize) && orig.scrollback() <= p
                                            < orig.scrollback() + orig.rows {
                                            cleared_content(orig.lines[p])
                                        } else {
                                            orig.lines[p]
                                        },
                                ),
                                ..orig
                            }),
                            self.alt_screen == old(self).alt_screen,
                            self.cursor == old(self).cursor,
                            self.saved_cursor == old(self).saved_cursor,
                            self.attrs == old(self).attrs,
                            self.top_and_bottom_margins == old(self).top_and_bottom_margins,
                            self.left_and_right_margins == old(self).left_and_right_margins,
                            self.modes == old(self).modes,
                            self.title == old(self).title,
                            self.wrap_next == old(self).wrap_next,
                            self.input_start_visible_row == old(self).input_start_visible_row,
                        decreases srcs.len() - i,
                    {
                        let source_phys = self.scroll_source_rows[i];
                        let ghost before = self.screen.model();
                        let ghost before_lines = self.screen.lines_view();
                        proof {
                            self.screen.lemma_model_lines();
                        }
                        proof {
                            assert(srcs.take(i + 1) =~= srcs.take(i as int).push(source_phys));
                            assert forall|q: usize|
                                #[trigger] srcs.take(i + 1).contains(q) == (srcs.take(i as int).contains(q) || q
                                    == source_phys) by {
                                if srcs.take(i as int).contains(q) {
                                    let t0 = srcs.take(i as int);
                                    let k = choose|k: int| 0 <= k < t0.len() && #[trigger] t0[k] == q;
                                    assert(srcs.take(i + 1)[k] == q);
                                }
                                if q == source_phys {
                                    assert(srcs.take(i + 1)[i as int] == q);
                                }
                                let t = srcs.take(i + 1);
                                if t.contains(q) {
                                    let k = choose|k: int| 0 <= k < t.len() && #[trigger] t[k] == q;
                                    if k < i {
                                        assert(srcs.take(i as int)[k] == q);
                                    }
                                }
                            }
                            assert(!srcs.take(i as int).contains(source_phys)) by {
                                if srcs.take(i as int).contains(source_phys) {
                                    let t0 = srcs.take(i as int);
                                    let k = choose|k: int| 0 <= k < t0.len() && #[trigger] t0[k] == source_phys;
                                    assert(srcs[k] == srcs[i as int]);
                                }
                            }
                        }
                        if source_phys >= visible_start && source_phys < visible_end {
                            let ghost mut after_line: Line = vstd::pervasive::arbitrary();
                            let ghost mut took = false;
                            match self.screen.get_line_mut(PhysRowIndex::new(source_phys)) {
                                Some(line) => {
                                    let ghost b = *line;
                                    line.clear();
                                    proof {
                                        assert(content(*line) == cleared_content(content(b)));
                                        after_line = *line;
                                        took = true;
                                    }
                                },
                                None => {},
                            }
                            proof {
                                self.screen.lemma_model_lines();
                                if took {
                                    assert(self.screen.lines_view()[source_phys as int] == after_line);
                                    assert(self.screen.model().lines[source_phys as int] == content(after_line));
                                }
                                if (source_phys as int) < orig.lines.len() {
                                    assert(before.lines[source_phys as int] == orig.lines[source_phys as int]);
                                    assert(self.screen.model().lines == before.lines.update(
                                        source_phys as int,
                                        cleared_content(orig.lines[source_phys as int]),
                                    ));
                                } else {
                                    assert(self.screen.model() == before);
                                }
                            }
                        } else {
                            assert(self.screen.model() == before);
                        }
                        i = i + 1;
                        assert(self.screen.model().lines =~= Seq::new(
                            orig.lines.len(),
                            |p: int|
                                if srcs.take(i as int).contains(p as usize) && orig.scrollback() <= p
                                    < orig.scrollback() + orig.rows {
                                    cleared_content(orig.lines[p])
                                } else {
                                    orig.lines[p]
                                },
                        ));
                    }
                    assert(srcs.take(srcs.len() as int) =~= srcs);
                    self.scroll_source_rows.clear();
                    self.input_start_visible_row = None;
                    assert(self.screen.model().lines =~= cleared_sources(orig, srcs).lines);
                }
            },
            None => {},
        }
    }

    /// Moves the cursor to column `x`, row `y` of the viewport, capped to the
    /// viewport; cancels deferred wrapping; at column 0 runs the redraw check.
    pub fn set_cursor_pos(&mut self, x: usize, y: usize)
        requires
            old(self).wf(),
        ensures
            final(self).wf(),
            final(self).model() == old(self).model().cursor_moved(x, y),
            final(self).alt_view() == old(self).alt_view(),
    {
        let max_cols = self.cols();
        let max_rows = self.rows();
        let top_x = max_cols.saturating_sub(1);
        let top_y = max_rows.saturating_sub(1);
        let new_x = if x < top_x { x } else { top_x };
        let new_y = if y < top_y { y } else { top_y };
        if x == 0 {
            self.handle_redraw_detection(new_y);
        }
        self.cursor.x = new_x;
        self.cursor.y = new_y;
        self.wrap_next = false;
    }

    /// Remembers the cursor.
    pub fn save_cursor(&mut self)
        ensures
            final(self).model() == old(self).model().cursor_saved(),
            final(self).screen_view() == old(self).screen_view(),
            final(self).alt_view() == old(self).alt_view(),
            old(self).wf() ==> final(self).wf(),
    {
        self.saved_cursor = Some(self.cursor.copy());
    }

    /// Brings back the remembered cursor, if there is one.
    pub fn restore_cursor(&mut self)
        ensures
            final(self).model() == old(self).model().cursor_restored(),
            final(self).screen_view() == old(self).screen_view(),
            final(self).alt_view() == old(self).alt_view(),
            old(self).wf() ==> final(self).wf(),
    {
        match &self.saved_cursor {
            Some(saved) => {
                self.cursor = saved.copy();
            },
            None => {},
        }
    }

    /// Sets the cursor shape.
    pub fn set_cursor_shape(&mut self, shape: CursorShape)
        ensures
            final(self).model() == (TermModel {
                cursor: Cursor { shape, ..old(self).model().cursor },
                ..old(self).model()
            }),
            final(self).screen_view() == old(self).screen_view(),
            final(self).alt_view() == old(self).alt_view(),
            old(self).wf() ==> final(self).wf(),
    {
        self.cursor.set_shape(shape);
    }

    /// Shows or hides the cursor.
    pub fn set_cursor_visible(&mut self, visible: bool)
        ensures
            final(self).model() == (TermModel {
                cursor: Cursor { visible, ..old(self).model().cursor },
                ..old(self).model()
            }),
            final(self).screen_view() == old(self).screen_view(),
            final(self).alt_view() == old(self).alt_view(),
            old(self).wf() ==> final(self).wf(),
    {
        self.cursor.set_visible(visible);
    }
}

impl TerminalState {
    /// Shows the alternate screen: created the first time (same size and
    /// scrollback limit), then exchanged with the current one.
    pub fn switch_to_alternate_screen(&mut self)
        requires
            old(self).wf(),
        ensures
            final(self).wf(),
            final(self).model() == old(self).model().alternate_shown(),
    {
        proof {
            self.lemma_wf();
        }
        let mut other = match self.alt_screen.take() {
            Some(a) => a,
            None => Screen::new(self.rows(), self.cols(), self.screen.max_scrollback()),
        };
        core::mem::swap(&mut self.screen, &mut other);
        self.alt_screen = Some(other);
        self.modes.insert(TerminalModes::ALTERNATE_SCREEN());
    }

    /// Shows the main screen again, if the alternate screen was ever used.
    pub fn switch_to_main_screen(&mut self)
        requires
            old(self).wf(),
        ensures
            final(self).wf(),
            final(self).model() == old(self).model().main_shown(),
    {
        match self.alt_screen.take() {
            Some(alt) => {
                let mut other = alt;
                core::mem::swap(&mut self.screen, &mut other);
                self.alt_screen = Some(other);
                self.modes.remove(TerminalModes::ALTERNATE_SCREEN());
            },
            None => {},
        }
    }

    /// Whether the alternate screen is shown.
    pub fn is_alternate_screen(&self) -> (r: bool)
        ensures
            r == (self.model().modes & 128 == 128),
    {
        self.modes.contains(TerminalModes::ALTERNATE_SCREEN())
    }

    /// Clears the screen (scrollback included) and sends the cursor home.
    pub fn clear_screen(&mut self)
        requires
            old(self).wf(),
        ensures
            final(self).wf(),
            final(self).model() == (TermModel {
                screen: old(self).model().screen.cleared(),
                cursor: Cursor { x: 0, y: 0, ..old(self).model().cursor },
                ..old(self).model()
            }),
            final(self).alt_view() == old(self).alt_view(),
    {
        self.screen.clear();
        self.cursor.home();
    }

    /// Resizes both screens, caps the cursor to the new size, resets the
    /// margins to the whole viewport and cancels deferred wrapping.
    pub fn resize(&mut self, new_rows: usize, new_cols: usize)
        requires
            old(self).wf(),
            new_rows + old(self).model().screen.max_scrollback < isize::MAX,
            old(self).model().alt matches Some(a) ==> new_rows + a.max_scrollback < isize::MAX,
        ensures
            final(self).wf(),
            final(self).model() == (TermModel {
                screen: old(self).model().screen.resized(new_rows as nat, new_cols as nat),
                alt: match old(self).model().alt {
                    Some(a) => Some(a.resized(new_rows as nat, new_cols as nat)),
                    None => None,
                },
                cursor: Cursor {
                    x: cap_below(old(self).model().cursor.x as int, new_cols as int) as usize,
                    y: cap_below(old(self).model().cursor.y as int, new_rows as int) as usize,
                    ..old(self).model().cursor
                },
                tb: 0..new_rows,
                lr: 0..new_cols,
                wrap_next: false,
                ..old(self).model()
            }),
    {
        self.screen.resize(new_rows, new_cols);
        match self.alt_screen.take() {
            Some(mut alt) => {
                alt.resize(new_rows, new_cols);
                self.alt_screen = Some(alt);
            },
            None => {},
        }
        self.cursor.clamp(new_cols, new_rows);
        self.top_and_bottom_margins = 0..new_rows;
        self.left_and_right_margins = 0..new_cols;
        self.wrap_next = false;
    }

    /// Sets the scroll region to rows `top..=bottom` when `top <= bottom`
    /// and `bottom` is a viewport row; otherwise nothing changes.
    pub fn set_scroll_region(&mut self, top: usize, bottom: usize)
        ensures
            final(self).model() == old(self).model().region_set(top, bottom),
            final(self).screen_view() == old(self).screen_view(),
            final(self).alt_view() == old(self).alt_view(),
            old(self).wf() ==> final(self).wf(),
    {
        let max_rows = self.rows();
        if top <= bottom && bottom < max_rows {
            self.top_and_bottom_margins = top..(bottom + 1);
        }
    }

    /// Resets the scroll region to the whole viewport.
    pub fn clear_scroll_region(&mut self)
        ensures
            final(self).model() == (TermModel { tb: 0..old(self).model().screen.rows as usize, ..old(self).model() }),
            final(self).screen_view() == old(self).screen_view(),
            final(self).alt_view() == old(self).alt_view(),
            old(self).wf() ==> final(self).wf(),
    {
        let rows = self.rows();
        self.top_and_bottom_margins = 0..rows;
    }

    /// The scroll region, rows included at both ends; `None` when it is the
    /// whole viewport.
    pub fn scroll_region(&self) -> (r: Option<ScrollRegion>)
        ensures
            r == self.model().region_reported(),
    {
        if self.top_and_bottom_margins.start == 0 && self.top_and_bottom_margins.end == self.rows() {
            None
        } else {
            Some(
                ScrollRegion::new(
                    self.top_and_bottom_margins.start,
                    self.top_and_bottom_margins.end.saturating_sub(1),
                ),
            )
        }
    }

    /// The scroll region, rows included at both ends (the whole viewport
    /// when none is set).
    pub fn effective_scroll_region(&self) -> (r: ScrollRegion)
        ensures
            r == (ScrollRegion {
                top: self.model().tb.start,
                bottom: if self.model().tb.end > 0 { (self.model().tb.end - 1) as usize } else { 0 },
            }),
    {
        ScrollRegion::new(self.top_and_bottom_margins.start, self.top_and_bottom_margins.end.saturating_sub(1))
    }

    /// The top and bottom margins (the end excluded).
    pub fn top_and_bottom_margins(&self) -> (r: &Range<usize>)
        ensures
            *r == self.model().tb,
    {
        &self.top_and_bottom_margins
    }

    /// The left and right margins (the end excluded).
    pub fn left_and_right_margins(&self) -> (r: &Range<usize>)
        ensures
            *r == self.model().lr,
    {
        &self.left_and_right_margins
    }

    /// Whether the next printed character first moves to a new line.
    pub fn wrap_next(&self) -> (r: bool)
        ensures
            r == self.model().wrap_next,
    {
        self.wrap_next
    }

    /// Sets whether the next printed character first moves to a new line.
    pub fn set_wrap_next(&mut self, value: bool)
        ensures
            final(self).model() == (TermModel { wrap_next: value, ..old(self).model() }),
            final(self).screen_view() == old(self).screen_view(),
            final(self).alt_view() == old(self).alt_view(),
            old(self).wf() ==> final(self).wf(),
    {
        self.wrap_next = value;
    }

    /// Turns the modes of `mode` on or off.
    pub fn set_mode(&mut self, mode: TerminalModes, enabled: bool)
        ensures
            final(self).model() == (TermModel {
                modes: if enabled { old(self).model().modes | mode@ } else { old(self).model().modes & !mode@ },
                ..old(self).model()
            }),
            final(self).screen_view() == old(self).screen_view(),
            final(self).alt_view() == old(self).alt_view(),
            old(self).wf() ==> final(self).wf(),
    {
        if enabled {
            self.modes.insert(mode);
        } else {
            self.modes.remove(mode);
        }
    }

    /// Whether every mode of `mode` is on.
    pub fn is_mode_enabled(&self, mode: TerminalModes) -> (r: bool)
        ensures
            r == (self.model().modes & mode@ == mode@),
    {
        self.modes.contains(mode)
    }

    /// The modes.
    pub fn modes(&self) -> (m: TerminalModes)
        ensures
            m@ == self.model().modes,
    {
        self.modes
    }

    /// Sets the title.
    pub fn set_title(&mut self, title: String)
        ensures
            final(self).model() == (TermModel { title: title@, ..old(self).model() }),
            final(self).screen_view() == old(self).screen_view(),
            final(self).alt_view() == old(self).alt_view(),
            old(self).wf() ==> final(self).wf(),
    {
        self.title = title;
    }

    /// The title.
    pub fn title(&self) -> (t: &str)
        ensures
            t@ == self.model().title,
    {
        self.title.as_str()
    }

    /// The line under the cursor, if it is stored.
    pub fn current_line(&self) -> (r: Option<&Line>)
        requires
            self.wf(),
        ensures
            r == (match self.model().screen.visible_to_phys((self.model().cursor.y as isize) as int) {
                Some(p) => if p < self.screen_view().lines_view().len() {
                    Some(&self.screen_view().lines_view()[p])
                } else {
                    None
                },
                None => None,
            }),
    {
        proof {
            self.lemma_wf();
        }
        self.screen.get_visible_line(VisibleRowIndex::new(self.cursor.y as isize))
    }
}

/// Recording store positions keeps them free of repeats.
proof fn lemma_recorded_no_duplicates(sources: Seq<usize>, lo: int, hi: int)
    requires
        sources.no_duplicates(),
    ensures
        recorded(sources, lo, hi).no_duplicates(),
    decreases hi + 1 - lo,
{
    if lo <= hi {
        let next = if sources.contains(lo as usize) { sources } else { sources.push(lo as usize) };
        if !sources.contains(lo as usize) {
            assert forall|i: int, j: int| 0 <= i < j < next.len() implies next[i] != next[j] by {
                if j == next.len() - 1 {
                    assert(sources[i] == next[i]);
                }
            }
        }
        lemma_recorded_no_duplicates(next, lo + 1, hi);
    }
}

impl TerminalState {
    /// The line under the cursor, for update in place.
    pub fn current_line_mut(&mut self) -> (r: Option<&mut Line>)
        requires
            old(self).wf(),
        ensures
            (match old(self).model().screen.visible_to_phys((old(self).model().cursor.y as isize) as int) {
                Some(p) => if p < old(self).screen_view().lines_view().len() {
                    r matches Some(l) && *l == old(self).screen_view().lines_view()[p]
                        && final(self).screen_view().lines_view() == old(self).screen_view().lines_view().update(
                        p,
                        *final(l),
                    ) && final(self).model() == (TermModel {
                        screen: ScreenModel {
                            lines: old(self).model().screen.lines.update(p, content(*final(l))),
                            ..old(self).model().screen
                        },
                        ..old(self).model()
                    }) && (final(l).wf() ==> final(self).wf())
                } else {
                    r is None && final(self).model() == old(self).model()
                },
                None => r is None && final(self).model() == old(self).model(),
            }),
            final(self).alt_view() == old(self).alt_view(),
    {
        proof {
            self.lemma_wf();
        }
        self.screen.get_visible_line_mut(VisibleRowIndex::new(self.cursor.y as isize))
    }

    /// Scrolls the scroll region up by `num_rows`, first recording, while
    /// input is being tracked, the store positions of the rows from where
    /// input started down to the cursor.
    pub fn scroll_up(&mut self, num_rows: usize)
        requires
            old(self).wf(),
            old(self).model().scroll_up_fits(num_rows),
        ensures
            final(self).wf(),
            final(self).model() == old(self).model().scrolled_up(num_rows),
            final(self).alt_view() == old(self).alt_view(),
    {
        proof {
            self.lemma_wf();
        }
        match self.input_start_visible_row {
            Some(input_start) => {
                let scrollback = self.screen.scrollback_lines();
                let y = self.cursor.y;
                if input_start <= y {
                    let ghost target = recorded(
                        old(self).scroll_source_rows@,
                        scrollback + input_start,
                        scrollback + y,
                    );
                    let mut vis_row = input_start;
                    loop
                        invariant_except_break
                            recorded(self.scroll_source_rows@, scrollback + vis_row, scrollback + y) == target,
                        invariant
                            input_start <= vis_row <= y,
                            scrollback + y <= usize::MAX,
                            self.scroll_source_rows@.no_duplicates(),
                            self.screen == old(self).screen,
                            self.alt_screen == old(self).alt_screen,
                            self.cursor == old(self).cursor,
                            self.saved_cursor == old(self).saved_cursor,
                            self.attrs == old(self).attrs,
                            self.top_and_bottom_margins == old(self).top_and_bottom_margins,
                            self.left_and_right_margins == old(self).left_and_right_margins,
                            self.modes == old(self).modes,
                            self.title == old(self).title,
                            self.wrap_next == old(self).wrap_next,
                            self.input_start_visible_row == old(self).input_start_visible_row,
                        ensures
                            self.scroll_source_rows@ == target,
                        decreases y - vis_row,
                    {
                        let phys = scrollback + vis_row;
                        let mut found = false;
                        let mut k: usize = 0;
                        while k < self.scroll_source_rows.len()
                            invariant
                                k <= self.scroll_source_rows@.len(),
                                found == (exists|j: int| 0 <= j < k && self.scroll_source_rows@[j] == phys),
                            decreases self.scroll_source_rows@.len() - k,
                        {
                            if self.scroll_source_rows[k] == phys {
                                found = true;
                            }
                            k = k + 1;
                        }
                        proof {
                            let src = self.scroll_source_rows@;
                            assert(found == src.contains(phys)) by {
                                if src.contains(phys) {
                                    let j = choose|j: int| 0 <= j < src.len() && #[trigger] src[j] == phys;
                                    assert(0 <= j < k && src[j] == phys);
                                }
                            }
                            lemma_recorded_no_duplicates(src, phys as int, phys as int);
                            assert(recorded(src, phys as int, phys as int) == (if src.contains(phys) {
                                src
                            } else {
                                src.push(phys)
                            })) by {
                                let next = if src.contains(phys) { src } else { src.push(phys) };
                                assert(recorded(next, phys + 1, phys as int) == next);
                            }
                        }
                        if !found {
                            self.scroll_source_rows.push(phys);
                        }
                        if vis_row == y {
                            break;
                        }
                        vis_row = vis_row + 1;
                    }
                }
            },
            None => {},
        }
        let top = self.top_and_bottom_margins.start;
        let bottom = self.top_and_bottom_margins.end;
        self.screen.scroll_up_within_margins(top, bottom, num_rows);
    }

    /// Scrolls the scroll region down by `num_rows`.
    pub fn scroll_down(&mut self, num_rows: usize)
        requires
            old(self).wf(),
            old(self).model().tb.start < old(self).model().tb.end && num_rows > 0 ==> old(self).model().screen.scrollback()
                + old(self).model().tb.end <= usize::MAX,
        ensures
            final(self).wf(),
            final(self).model() == (TermModel {
                screen: old(self).model().screen.scrolled_down_within(
                    old(self).model().tb.start as int,
                    old(self).model().tb.end as int,
                    num_rows as int,
                ),
                ..old(self).model()
            }),
            final(self).alt_view() == old(self).alt_view(),
    {
        let top = self.top_and_bottom_margins.start;
        let bottom = self.top_and_bottom_margins.end;
        self.screen.scroll_down_within_margins(top, bottom, num_rows);
    }

    /// Scrolls the scroll region up by `lines`, as `scroll_up` does.
    pub fn scroll_up_region(&mut self, lines: usize)
        requires
            old(self).wf(),
            old(self).model().scroll_up_fits(lines),
        ensures
            final(self).wf(),
            final(self).model() == old(self).model().scrolled_up(lines),
            final(self).alt_view() == old(self).alt_view(),
    {
        self.scroll_up(lines);
    }

    /// Moves to the next line: at the bottom of the scroll region the region
    /// scrolls up one line instead; with `move_to_first_column` the cursor
    /// also goes to the left margin.
    pub fn new_line(&mut self, move_to_first_column: bool)
        requires
            old(self).wf(),
            old(self).model().new_line_fits(),
        ensures
            final(self).wf(),
            final(self).model() == old(self).model().new_lined(move_to_first_column),
            final(self).alt_view() == old(self).alt_view(),
    {
        let x = if move_to_first_column {
            self.left_and_right_margins.start
        } else {
            self.cursor.x
        };
        let y = self.cursor.y;
        let new_y = if y == self.top_and_bottom_margins.end.saturating_sub(1) {
            self.scroll_up(1);
            y
        } else {
            y + 1
        };
        self.cursor.x = x;
        let top_y = self.rows().saturating_sub(1);
        self.cursor.y = if new_y < top_y { new_y } else { top_y };
        self.wrap_next = false;
    }
}

/// Marks the line shown at viewport row `row` (taken as `isize`) as wrapped.
fn mark_row_wrapped(screen: &mut Screen, row: usize)
    requires
        old(screen).wf(),
    ensures
        final(screen).wf(),
        final(screen).model() == row_changed(
            old(screen).model(),
            (row as isize) as int,
            |c: LineContent| wrapped_content(c),
        ),
{
    proof {
        screen.lemma_wf_lines();
        screen.lemma_model_lines();
    }
    match screen.visible_to_phys(VisibleRowIndex::new(row as isize)) {
        Some(phys) => {
            let ghost mut after: Line = vstd::pervasive::arbitrary();
            match screen.get_line_mut(phys) {
                Some(line) => {
                    line.set_wrapped(true);
                    proof {
                        after = *line;
                    }
                },
                None => {},
            }
            proof {
                screen.lemma_model_lines();
            }
        },
        None => {},
    }
}

/// Writes `cell` at column `x` of the line shown at viewport row `row`
/// (taken as `isize`).
fn write_at_row(screen: &mut Screen, row: usize, x: usize, cell: Cell)
    requires
        old(screen).wf(),
        x < usize::MAX,
    ensures
        final(screen).wf(),
        final(screen).model() == row_changed(
            old(screen).model(),
            (row as isize) as int,
            |c: LineContent| content_written(c, x as int, cell@),
        ),
{
    proof {
        screen.lemma_wf_lines();
        screen.lemma_model_lines();
    }
    match screen.visible_to_phys(VisibleRowIndex::new(row as isize)) {
        Some(phys) => {
            let ghost mut after: Line = vstd::pervasive::arbitrary();
            match screen.get_line_mut(phys) {
                Some(line) => {
                    write_into_line(line, x, cell);
                    proof {
                        after = *line;
                    }
                },
                None => {},
            }
            proof {
                screen.lemma_model_lines();
            }
        },
        None => {},
    }
}

/// Writes `cell` at column `x` of `line`, padding the line with blank cells
/// to `x + 1` cells first where it is shorter.
fn write_into_line(line: &mut Line, x: usize, cell: Cell)
    requires
        old(line).wf(),
        x < usize::MAX,
    ensures
        final(line).wf(),
        content(*final(line)) == content_written(content(*old(line)), x as int, cell@),
{
    if x < line.len() {
        line.set_cell(x, cell);
    } else {
        line.resize(x + 1, Cell::blank());
        line.set_cell(x, cell);
    }
    proof {
        line.lemma_vec_len();
    }
}

impl TerminalState {
    /// Writes a cell at the cursor (see `TermModel::cell_written`).
    pub fn write_cell(&mut self, cell: Cell)
        requires
            old(self).wf(),
            old(self).model().wrap_next ==> old(self).model().new_line_fits(),
            !old(self).model().wrap_next ==> old(self).model().cursor.x < usize::MAX && old(self).model().cursor.x
                + cell@.width <= usize::MAX,
        ensures
            final(self).wf(),
            final(self).model() == old(self).model().cell_written(cell@),
            final(self).alt_view() == old(self).alt_view(),
    {
        proof {
            self.lemma_wf();
        }
        let cell_width = cell.width();
        let width = self.left_and_right_margins.end;
        proof {
            self.screen.lemma_wf_lines();
        }
        if self.wrap_next {
            mark_row_wrapped(&mut self.screen, self.cursor.y);
            self.new_line(true);
            self.wrap_next = false;
        }
        let x = self.cursor.x;
        let y = self.cursor.y;
        if x == 0 && self.input_start_visible_row.is_none() {
            self.input_start_visible_row = Some(y);
        }
        write_at_row(&mut self.screen, y, x, cell);
        if x + (cell_width as usize) < width {
            self.cursor.x = x + cell_width as usize;
            self.wrap_next = false;
        } else {
            self.wrap_next = self.modes.contains(TerminalModes::AUTO_WRAP());
        }
    }
}

/// Blanks the cells of columns `start..end` of `line` that lie inside it.
fn blank_cells(line: &mut Line, start: usize, end: usize)
    requires
        old(line).wf(),
    ensures
        final(line).wf(),
        content(*final(line)) == content_blanked(content(*old(line)), start as int, end as int),
{
    let mut col = start;
    while col < end
        invariant
            start <= col || start >= end,
            line.wf(),
            content_blanked(content(*old(line)), start as int, end as int) == content_blanked(
                content(*line),
                col as int,
                end as int,
            ),
        decreases end - col,
    {
        if col < line.len() {
            line.set_cell(col, Cell::blank());
            proof {
                line.lemma_vec_len();
            }
        }
        col = col + 1;
    }
}

/// Blanks the cells of columns `0..=end` of `line` that lie inside it.
fn blank_cells_through(line: &mut Line, end: usize)
    requires
        old(line).wf(),
    ensures
        final(line).wf(),
        content(*final(line)) == content_blanked(content(*old(line)), 0, end + 1),
{
    let mut col: usize = 0;
    loop
        invariant_except_break
            content_blanked(content(*old(line)), 0, end + 1) == content_blanked(
                content(*line),
                col as int,
                end + 1,
            ),
        invariant
            col <= end,
            line.wf(),
        ensures
            content(*line) == content_blanked(content(*old(line)), 0, end + 1),
        decreases end - col,
    {
        let ghost cur = content(*line);
        if col < line.len() {
            line.set_cell(col, Cell::blank());
            proof {
                line.lemma_vec_len();
            }
        }
        proof {
            assert(content_blanked(cur, col as int, end + 1) == content_blanked(content(*line), col + 1, end + 1));
        }
        if col == end {
            assert(content_blanked(content(*line), col + 1, end + 1) == content(*line));
            break;
        }
        col = col + 1;
    }
}

/// Changing no row changes nothing.
proof fn lemma_rows_changed_none(m: ScreenModel, lo: int, f: spec_fn(LineContent) -> LineContent)
    ensures
        rows_changed(m, lo, lo, f) == m,
{
    assert(rows_changed(m, lo, lo, f).lines =~= m.lines);
}

/// Changing rows `lo..r` and then row `r` changes rows `lo..r + 1`.
proof fn lemma_rows_changed_step(m: ScreenModel, lo: int, r: int, f: spec_fn(LineContent) -> LineContent)
    requires
        0 <= lo <= r,
        r <= isize::MAX,
    ensures
        row_changed(rows_changed(m, lo, r, f), r, f) == rows_changed(m, lo, r + 1, f),
{
    let a = rows_changed(m, lo, r, f);
    assert(a.scrollback() == m.scrollback());
    assert(row_changed(a, r, f).lines =~= rows_changed(m, lo, r + 1, f).lines);
}

/// Erases the line shown at viewport row `row` (taken as `isize`) to a
/// blank line of `cols` cells.
fn erase_row(screen: &mut Screen, row: usize, cols: usize)
    requires
        old(screen).wf(),
    ensures
        final(screen).wf(),
        final(screen).model() == row_changed(
            old(screen).model(),
            (row as isize) as int,
            |c: LineContent| content_erased(c, cols as nat),
        ),
{
    proof {
        screen.lemma_wf_lines();
        screen.lemma_model_lines();
    }
    match screen.visible_to_phys(VisibleRowIndex::new(row as isize)) {
        Some(phys) => {
            let ghost mut after: Line = vstd::pervasive::arbitrary();
            match screen.get_line_mut(phys) {
                Some(line) => {
                    line.clear();
                    line.resize(cols, Cell::blank());
                    proof {
                        after = *line;
                    }
                },
                None => {},
            }
            proof {
                screen.lemma_model_lines();
            }
        },
        None => {},
    }
}

/// Blanks columns `start..end` of the line shown at viewport row `row`.
pub(crate) fn blank_row_from(screen: &mut Screen, row: usize, start: usize, end: usize)
    requires
        old(screen).wf(),
    ensures
        final(screen).wf(),
        final(screen).model() == row_changed(
            old(screen).model(),
            (row as isize) as int,
            |c: LineContent| content_blanked(c, start as int, end as int),
        ),
{
    proof {
        screen.lemma_wf_lines();
        screen.lemma_model_lines();
    }
    match screen.visible_to_phys(VisibleRowIndex::new(row as isize)) {
        Some(phys) => {
            let ghost mut after: Line = vstd::pervasive::arbitrary();
            match screen.get_line_mut(phys) {
                Some(line) => {
                    blank_cells(line, start, end);
                    proof {
                        after = *line;
                    }
                },
                None => {},
            }
            proof {
                screen.lemma_model_lines();
            }
        },
        None => {},
    }
}

/// Blanks columns `0..=end` of the line shown at viewport row `row`.
fn blank_row_through(screen: &mut Screen, row: usize, end: usize)
    requires
        old(screen).wf(),
    ensures
        final(screen).wf(),
        final(screen).model() == row_changed(
            old(screen).model(),
            (row as isize) as int,
            |c: LineContent| content_blanked(c, 0, end + 1),
        ),
{
    proof {
        screen.lemma_wf_lines();
        screen.lemma_model_lines();
    }
    match screen.visible_to_phys(VisibleRowIndex::new(row as isize)) {
        Some(phys) => {
            let ghost mut after: Line = vstd::pervasive::arbitrary();
            match screen.get_line_mut(phys) {
                Some(line) => {
                    blank_cells_through(line, end);
                    proof {
                        after = *line;
                    }
                },
                None => {},
            }
            proof {
                screen.lemma_model_lines();
            }
        },
        None => {},
    }
}

/// Erases the lines shown at viewport rows `lo..hi` to blank lines of `cols` cells.
fn erase_rows(screen: &mut Screen, lo: usize, hi: usize, cols: usize)
    requires
        old(screen).wf(),
        hi <= isize::MAX,
    ensures
        final(screen).wf(),
        final(screen).model() == rows_changed(
            old(screen).model(),
            lo as int,
            hi as int,
            |c: LineContent| content_erased(c, cols as nat),
        ),
{
    proof {
        lemma_rows_changed_none(screen.model(), lo as int, |c: LineContent| content_erased(c, cols as nat));
    }
    let mut row = lo;
    while row < hi
        invariant
            lo <= row,
            lo <= hi ==> row <= hi,
            lo > hi ==> row == lo,
            hi <= isize::MAX,
            screen.wf(),
            screen.model() == rows_changed(
                old(screen).model(),
                lo as int,
                row as int,
                |c: LineContent| content_erased(c, cols as nat),
            ),
        decreases hi - row,
    {
        proof {
            lemma_rows_changed_step(
                old(screen).model(),
                lo as int,
                row as int,
                |c: LineContent| content_erased(c, cols as nat),
            );
        }
        erase_row(screen, row, cols);
        row = row + 1;
    }
    proof {
        if lo > hi {
            assert(rows_changed(
                old(screen).model(),
                lo as int,
                hi as int,
                |c: LineContent| content_erased(c, cols as nat),
            ).lines =~= rows_changed(
                old(screen).model(),
                lo as int,
                lo as int,
                |c: LineContent| content_erased(c, cols as nat),
            ).lines);
            assert(screen.model() == rows_changed(
                old(screen).model(),
                lo as int,
                hi as int,
                |c: LineContent| content_erased(c, cols as nat),
            ));
        } else {
            assert(row == hi);
            assert(screen.model() == rows_changed(
                old(screen).model(),
                lo as int,
                hi as int,
                |c: LineContent| content_erased(c, cols as nat),
            ));
        }
    }
}

impl TerminalState {
    /// Blanks columns `start_col..end_col` of viewport row `row`.
    fn erase_line_from(&mut self, row: usize, start_col: usize, end_col: usize)
        requires
            old(self).wf(),
        ensures
            final(self).wf(),
            final(self).model() == (TermModel {
                screen: row_changed(
                    old(self).model().screen,
                    (row as isize) as int,
                    |c: LineContent| content_blanked(c, start_col as int, end_col as int),
                ),
                ..old(self).model()
            }),
            final(self).alt_view() == old(self).alt_view(),
    {
        blank_row_from(&mut self.screen, row, start_col, end_col);
    }

    /// Blanks columns `0..=end_col` of viewport row `row`.
    fn erase_line_to(&mut self, row: usize, end_col: usize)
        requires
            old(self).wf(),
        ensures
            final(self).wf(),
            final(self).model() == (TermModel {
                screen: row_changed(
                    old(self).model().screen,
                    (row as isize) as int,
                    |c: LineContent| content_blanked(c, 0, end_col + 1),
                ),
                ..old(self).model()
            }),
            final(self).alt_view() == old(self).alt_view(),
    {
        blank_row_through(&mut self.screen, row, end_col);
    }

    /// Erases viewport row `row` to a full-width blank line.
    fn erase_entire_line(&mut self, row: usize)
        requires
            old(self).wf(),
        ensures
            final(self).wf(),
            final(self).model() == (TermModel {
                screen: row_changed(
                    old(self).model().screen,
                    (row as isize) as int,
                    |c: LineContent| content_erased(c, old(self).model().screen.cols),
                ),
                ..old(self).model()
            }),
            final(self).alt_view() == old(self).alt_view(),
    {
        let cols = self.cols();
        erase_row(&mut self.screen, row, cols);
    }

    /// Erases part of the display (ED; see `TermModel::display_erased`).
    pub fn erase_display(&mut self, mode: u16)
        requires
            old(self).wf(),
            mode == 0 ==> old(self).model().cursor.y < usize::MAX,
            mode == 1 ==> old(self).model().cursor.y <= isize::MAX,
        ensures
            final(self).wf(),
            final(self).model() == old(self).model().display_erased(mode),
            final(self).alt_view() == old(self).alt_view(),
    {
        proof {
            self.lemma_wf();
        }
        let cursor_x = self.cursor.x;
        let cursor_y = self.cursor.y;
        let cols = self.cols();
        let rows = self.rows();
        if mode == 0 {
            self.erase_line_from(cursor_y, cursor_x, cols);
            erase_rows(&mut self.screen, cursor_y + 1, rows, cols);
        } else if mode == 1 {
            erase_rows(&mut self.screen, 0, cursor_y, cols);
            self.erase_line_to(cursor_y, cursor_x);
        } else if mode == 2 {
            erase_rows(&mut self.screen, 0, rows, cols);
        } else if mode == 3 {
            self.screen.clear();
            self.screen.clear_scrollback();
        }
    }

    /// Erases part of the cursor's line (EL; see `TermModel::line_erased`).
    pub fn erase_line(&mut self, mode: u16)
        requires
            old(self).wf(),
        ensures
            final(self).wf(),
            final(self).model() == old(self).model().line_erased(mode),
            final(self).alt_view() == old(self).alt_view(),
    {
        let cursor_x = self.cursor.x;
        let cursor_y = self.cursor.y;
        let cols = self.cols();
        if mode == 0 {
            self.erase_line_from(cursor_y, cursor_x, cols);
        } else if mode == 1 {
            self.erase_line_to(cursor_y, cursor_x);
        } else if mode == 2 {
            self.erase_entire_line(cursor_y);
        }
    }
}

/// Restoring the cursor right after saving it gives back the same state.
pub proof fn lemma_save_restore_cursor(m: TermModel)
    ensures
        m.cursor_saved().cursor_restored() == m.cursor_saved(),
        m.cursor_saved().cursor_restored().cursor == m.cursor,
{
}

/// A restored cursor is the one saved last, wherever the cursor went since.
pub proof fn lemma_restore_after_moves(m: TermModel, x: usize, y: usize)
    ensures
        m.cursor_saved().cursor_moved(x, y).cursor_restored().cursor == m.cursor,
{
}

/// Leaving the alternate screen brings back the main screen as it was.
pub proof fn lemma_alternate_round_trip(m: TermModel)
    ensures
        m.alternate_shown().main_shown().screen == m.screen,
        m.alternate_shown().main_shown().modes == (m.modes | 128) & !128u32,
        m.alternate_shown().modes & 128 == 128,
{
    let v = m.modes;
    assert((v | 128) & 128 == 128) by (bit_vector);
}

/// A scroll region set inside the viewport is reported back as set, unless
/// it is the whole viewport.
pub proof fn lemma_scroll_region_round_trip(m: TermModel, top: usize, bottom: usize)
    requires
        top <= bottom < m.screen.rows,
        m.screen.rows <= usize::MAX,
    ensures
        m.region_set(top, bottom).region_reported() == (if top == 0 && bottom + 1 == m.screen.rows {
            None
        } else {
            Some(ScrollRegion { top, bottom })
        }),
{
}

/// Moving the cursor always leaves it inside a non-empty viewport.
pub proof fn lemma_cursor_moved_in_viewport(m: TermModel, x: usize, y: usize)
    requires
        m.screen.rows > 0,
        m.screen.cols > 0,
    ensures
        m.cursor_moved(x, y).cursor.x < m.screen.cols,
        m.cursor_moved(x, y).cursor.y < m.screen.rows,
        !m.cursor_moved(x, y).wrap_next,
{
}

/// Writing a cell inside the margins, with no wrap pending, advances the
/// cursor by the cell's width on the same row.
pub proof fn lemma_write_advances(m: TermModel, cell: CellModel)
    requires
        !m.wrap_next,
        m.cursor.x + cell.width < m.lr.end,
    ensures
        m.cell_written(cell).cursor.x == m.cursor.x + cell.width,
        m.cell_written(cell).cursor.y == m.cursor.y,
        !m.cell_written(cell).wrap_next,
{
}

/// Writing a cell with no wrap pending, on a viewport row that the screen
/// stores, puts it at the cursor's column of that row: the row grows to at
/// least the column plus one (new cells before it are blank), its other
/// cells stay, the other lines and the scrollback stay; the cursor moves on
/// by the cell's width when that stays inside the right margin, else it
/// stays and a wrap is pending when auto wrap is on.
pub proof fn lemma_write_cell_row(m: TermModel, cell: CellModel)
    requires
        !m.wrap_next,
        m.cursor.y < m.screen.rows,
        m.screen.rows <= isize::MAX,
        m.screen.lines.len() >= m.screen.rows,
        m.screen.lines[m.screen.scrollback() + m.cursor.y].len == m.screen.lines[m.screen.scrollback()
            + m.cursor.y].cells.len(),
    ensures
        ({
            let w = m.cell_written(cell);
            let p = m.screen.scrollback() + m.cursor.y;
            let x = m.cursor.x as int;
            let before = m.screen.lines[p].cells;
            let after = w.screen.lines[p].cells;
            &&& w.screen.lines.len() == m.screen.lines.len()
            &&& forall|q: int| 0 <= q < m.screen.lines.len() && q != p ==> #[trigger] w.screen.lines[q]
                == m.screen.lines[q]
            &&& after.len() >= x + 1
            &&& after.len() == if x < before.len() { before.len() as int } else { x + 1 }
            &&& after[x] == cell
            &&& forall|j: int| 0 <= j < before.len() && j != x ==> #[trigger] after[j] == before[j]
            &&& forall|j: int| before.len() <= j < x ==> #[trigger] after[j] == blank_model(
                CellAttributes::spec_default(),
            )
            &&& w.cursor.y == m.cursor.y
            &&& if m.cursor.x + cell.width < m.lr.end {
                w.cursor.x == m.cursor.x + cell.width && !w.wrap_next
            } else {
                w.cursor.x == m.cursor.x && w.wrap_next == (m.modes & 2 == 2)
            }
        }),
{
    let p = m.screen.scrollback() + m.cursor.y;
    assert(m.screen.visible_to_phys((m.cursor.y as isize) as int) == Some(p));
}

/// The cells of an erased line: `cols` blank cells.
pub proof fn lemma_content_erased_cells(c: LineContent, cols: nat)
    ensures
        content_erased(c, cols).cells == Seq::new(cols, |_i: int| blank_model(CellAttributes::spec_default())),
{
    let b = blank_model(CellAttributes::spec_default());
    if cols == 0 {
        assert(Seq::<CellModel>::empty().take(0) =~= Seq::new(0, |_i: int| b));
    } else {
        assert(Seq::<CellModel>::empty() + Seq::new(cols, |_i: int| b) =~= Seq::new(cols, |_i: int| b));
    }
}

/// Erasing the display (ED) keeps the cursor and every other part of the
/// terminal but the screen. Modes 0 to 2 keep the number of lines and the
/// scrollback; mode 0 erases every viewport row below the cursor to `cols`
/// blank cells and keeps the rows above it, mode 1 erases every row above
/// the cursor and keeps the rows below it, mode 2 erases every viewport
/// row. Mode 3 leaves only the viewport's rows, all empty, and no
/// scrollback. Any other mode changes nothing.
pub proof fn lemma_erase_display_modes(m: TermModel, mode: u16)
    requires
        m.cursor.y < m.screen.rows,
        m.screen.rows <= isize::MAX,
        m.screen.lines.len() >= m.screen.rows,
    ensures
        ({
            let e = m.display_erased(mode);
            let sb = m.screen.scrollback();
            let y = m.cursor.y as int;
            let rows = m.screen.rows as int;
            let blanks = Seq::new(m.screen.cols, |_i: int| blank_model(CellAttributes::spec_default()));
            &&& e == (TermModel { screen: e.screen, ..m })
            &&& e.screen.rows == m.screen.rows && e.screen.cols == m.screen.cols
            &&& mode <= 2 ==> {
                &&& e.screen.lines.len() == m.screen.lines.len()
                &&& forall|p: int| 0 <= p < sb ==> #[trigger] e.screen.lines[p] == m.screen.lines[p]
            }
            &&& mode == 0 ==> {
                &&& forall|r: int| y < r < rows ==> (#[trigger] e.screen.lines[sb + r]).cells == blanks
                &&& forall|r: int| 0 <= r < y ==> #[trigger] e.screen.lines[sb + r] == m.screen.lines[sb + r]
            }
            &&& mode == 1 ==> {
                &&& forall|r: int| 0 <= r < y ==> (#[trigger] e.screen.lines[sb + r]).cells == blanks
                &&& forall|r: int| y < r < rows ==> #[trigger] e.screen.lines[sb + r] == m.screen.lines[sb + r]
            }
            &&& mode == 2 ==> forall|r: int| 0 <= r < rows ==> (#[trigger] e.screen.lines[sb + r]).cells == blanks
            &&& mode == 3 ==> {
                &&& e.screen.lines.len() == m.screen.rows
                &&& e.screen.scrollback() == 0
                &&& forall|p: int| 0 <= p < e.screen.lines.len() ==> #[trigger] e.screen.lines[p] == blank_content()
            }
            &&& mode > 3 ==> e == m
        }),
{
    let sb = m.screen.scrollback();
    let cols = m.screen.cols;
    assert forall|c: LineContent| #[trigger] content_erased(c, cols).cells == Seq::new(
        cols,
        |_i: int| blank_model(CellAttributes::spec_default()),
    ) by {
        lemma_content_erased_cells(c, cols);
    }
    assert(m.screen.visible_to_phys((m.cursor.y as isize) as int) == Some(sb + m.cursor.y));
    if mode == 3 {
        let c = m.screen.cleared();
        assert(c.scrollback() == 0);
        assert(c.lines.skip(0) =~= c.lines);
    }
}

} // verus!
