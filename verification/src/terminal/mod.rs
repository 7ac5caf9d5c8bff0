//! The terminal as a view shows it: its events, its size, the zones it
//! draws, and the queue of input written to the process.
pub mod event;
pub mod pty_loop;
pub mod state;

pub use event::TerminalEvent;
pub use state::{TerminalSize, ZoneInfo};

use vstd::prelude::*;

use crate::grid::cell::{blank_model, Cell, CellModel};
use crate::grid::attributes::CellAttributes;
use crate::grid::clusterline::{cell_models, concat_texts};
use crate::grid::screen::ScreenModel;
use crate::grid::stable_row_index::{PhysRowIndex, VisibleRowIndex};
use crate::grid::terminal_state::{TermModel, TerminalState};
use crate::grid::cursor::Cursor;
use crate::grid::CursorShape;
use crate::text::trimmed_end;
use crate::vte_performer::VtePerformer;

verus! {

/// The cursor as it is drawn.
#[derive(Debug, Clone, Copy, PartialEq, Eq, Structural)]
pub struct CursorInfo {
    /// Column.
    pub x: usize,
    /// Row.
    pub y: usize,
    /// Whether it is shown.
    pub visible: bool,
    /// Its shape.
    pub shape: CursorShape,
}

/// `cells` padded with blank cells to `cols` cells (never cut).
pub open spec fn padded_cells(cells: Seq<CellModel>, cols: nat) -> Seq<CellModel> {
    if cells.len() < cols {
        cells + Seq::new((cols - cells.len()) as nat, |_i: int| blank_model(CellAttributes::spec_default()))
    } else {
        cells
    }
}

/// The cells shown for store position `p`: the stored line's cells padded
/// to `cols`, or a blank line of `cols` cells where none is stored.
pub open spec fn phys_cells(s: ScreenModel, p: int, cols: nat) -> Seq<CellModel> {
    if 0 <= p < s.lines.len() {
        padded_cells(s.lines[p].cells, cols)
    } else {
        padded_cells(Seq::empty(), cols)
    }
}

/// The cells shown on viewport row `row`.
pub open spec fn visible_row_cells(s: ScreenModel, row: int, cols: nat) -> Seq<CellModel> {
    match s.visible_to_phys(row) {
        Some(p) => phys_cells(s, (p as usize) as int, cols),
        None => padded_cells(Seq::empty(), cols),
    }
}

/// The store positions shown when the view is `offset` lines up from the
/// bottom: the `rows` lines ending `offset` lines before the last one.
pub open spec fn viewport_range(total: nat, rows: nat, offset: nat) -> (int, int) {
    let end: int = if total >= offset { total - offset } else { 0 };
    let start: int = if end >= rows { end - rows } else { 0 };
    (start, end)
}

/// The offset after scrolling back `n` lines from `offset`, with `max`
/// the furthest.
pub open spec fn offset_scrolled_up(offset: nat, n: nat, max: nat) -> nat {
    if offset + n <= max {
        offset + n
    } else {
        max
    }
}

/// The offset after scrolling forward `n` lines from `offset`.
pub open spec fn offset_scrolled_down(offset: nat, n: nat) -> nat {
    if offset >= n {
        (offset - n) as nat
    } else {
        0
    }
}

/// Scrolling back never passes the furthest point, once within it.
pub proof fn lemma_scroll_up_within(offset: nat, n: nat, max: nat)
    requires
        offset <= max,
    ensures
        offset <= offset_scrolled_up(offset, n, max) <= max,
{
}

/// Scrolling back `n` lines and then forward `n` lines returns to where the
/// view was, unless scrolling back stopped at the furthest point.
pub proof fn lemma_scroll_round_trip(offset: nat, n: nat, max: nat)
    requires
        offset + n <= max,
    ensures
        offset_scrolled_down(offset_scrolled_up(offset, n, max), n) == offset,
{
}

/// Pushing a cell appends its model.
proof fn lemma_push_cell(v: Seq<Cell>, c: Cell)
    ensures
        cell_models(v.push(c)) == cell_models(v).push(c@),
{
    assert(cell_models(v.push(c)) =~= cell_models(v).push(c@));
}

/// A terminal as a view sees it: its state, its size and how far it is
/// scrolled back, with the performer that applies parsed output to it.
pub struct Terminal {
    state: TerminalState,
    performer: VtePerformer,
    size: crate::TerminalSize,
    display_offset: usize,
}

impl Terminal {
    /// The terminal state.
    pub closed spec fn state_view(&self) -> TerminalState {
        self.state
    }

    /// The size.
    pub closed spec fn size_view(&self) -> crate::TerminalSize {
        self.size
    }

    /// How many lines up from the bottom the view is scrolled.
    pub closed spec fn offset_view(&self) -> nat {
        self.display_offset as nat
    }

    /// The state is well formed.
    pub closed spec fn wf(&self) -> bool {
        self.state.wf()
    }

    /// A terminal of `size` keeping up to `scrollback_lines` lines of
    /// scrollback, scrolled to the bottom.
    pub fn new(size: crate::TerminalSize, scrollback_lines: usize) -> (t: Terminal)
        requires
            size.rows + scrollback_lines < isize::MAX,
        ensures
            t.wf(),
            t.size_view() == size,
            t.offset_view() == 0,
            t.state_view().model().screen == TermModel::fresh_screen(
                size.rows as nat,
                size.cols as nat,
                scrollback_lines as nat,
            ),
            t.state_view().model().cursor == Cursor::spec_default(),
            t.state_view().model().attrs == CellAttributes::spec_default(),
    {
        Terminal {
            state: TerminalState::new(size.rows as usize, size.cols as usize, scrollback_lines),
            performer: VtePerformer::new(),
            size,
            display_offset: 0,
        }
    }

    /// The state.
    pub fn state(&self) -> (s: &TerminalState)
        ensures
            *s == self.state_view(),
    {
        &self.state
    }

    /// The performer and the state, to apply parsed output.
    pub fn parts_mut(&mut self) -> (r: (&mut VtePerformer, &mut TerminalState))
        ensures
            *r.1 == old(self).state_view(),
            final(self).state_view() == *final(r.1),
            final(self).size_view() == old(self).size_view(),
            final(self).offset_view() == old(self).offset_view(),
            final(self).wf() == final(r.1).wf(),
    {
        (&mut self.performer, &mut self.state)
    }

    /// The size.
    pub fn size(&self) -> (s: crate::TerminalSize)
        ensures
            s == self.size_view(),
    {
        self.size
    }

    /// Takes the new size and resizes the state to it.
    pub fn resize(&mut self, size: crate::TerminalSize)
        requires
            old(self).wf(),
            size.rows + old(self).state_view().model().screen.max_scrollback < isize::MAX,
            old(self).state_view().model().alt matches Some(a) ==> size.rows + a.max_scrollback < isize::MAX,
        ensures
            final(self).wf(),
            final(self).size_view() == size,
            final(self).offset_view() == old(self).offset_view(),
            final(self).state_view().model().screen == old(self).state_view().model().screen.resized(
                size.rows as nat,
                size.cols as nat,
            ),
    {
        self.size = size;
        self.state.resize(size.rows as usize, size.cols as usize);
    }

    /// The text of each viewport row (trailing white space removed; empty
    /// where no line is stored).
    pub fn get_visible_lines(&self) -> (r: Vec<String>)
        requires
            self.wf(),
        ensures
            r@.len() == self.state_view().model().screen.rows,
            forall|i: int|
                0 <= i < r@.len() ==> (#[trigger] r@[i])@ == ({
                    let m = self.state_view().model().screen;
                    let p = m.scrollback() + i;
                    if p < m.lines.len() {
                        trimmed_end(concat_texts(m.lines[p].cells))
                    } else {
                        Seq::empty()
                    }
                }),
    {
        proof {
            self.state.lemma_wf();
            self.state.screen_view().lemma_wf_lines();
        }
        let screen = self.state.screen();
        let rows = self.state.rows();
        let mut out: Vec<String> = Vec::new();
        let mut i: usize = 0;
        while i < rows
            invariant
                i <= rows,
                rows == self.state_view().model().screen.rows,
                screen.wf(),
                screen.model() == self.state_view().model().screen,
                screen.model().rows + screen.model().max_scrollback < isize::MAX,
                screen.model().lines.len() <= screen.model().rows + screen.model().max_scrollback + 1,
                out@.len() == i,
                forall|k: int|
                    0 <= k < i ==> (#[trigger] out@[k])@ == ({
                        let m = screen.model();
                        let p = m.scrollback() + k;
                        if p < m.lines.len() {
                            trimmed_end(concat_texts(m.lines[p].cells))
                        } else {
                            Seq::empty()
                        }
                    }),
            decreases rows - i,
        {
            let text = match screen.get_line_text(i) {
                Some(t) => t,
                None => String::new(),
            };
            out.push(text);
            i = i + 1;
        }
        out
    }

    /// The cells of store position `p`, padded to `cols` (see
    /// `phys_cells`).
    fn phys_row_cells(&self, p: usize, cols: usize) -> (r: Vec<Cell>)
        requires
            self.wf(),
        ensures
            cell_models(r@) == phys_cells(self.state_view().model().screen, p as int, cols as nat),
    {
        proof {
            self.state.lemma_wf();
            self.state.screen_view().lemma_wf_lines();
            self.state.screen_view().lemma_model_lines();
        }
        let screen = self.state.screen();
        let mut cells = match screen.get_line(PhysRowIndex::new(p)) {
            Some(line) => line.to_vec(),
            None => Vec::new(),
        };
        let ghost start = cell_models(cells@);
        let n0 = cells.len();
        assert(start + Seq::new(0, |_i: int| blank_model(CellAttributes::spec_default())) =~= start);
        while cells.len() < cols
            invariant
                n0 == start.len(),
                n0 <= cells@.len(),
                n0 < cols ==> cells@.len() <= cols,
                n0 >= cols ==> cells@.len() == n0,
                cell_models(cells@) == start + Seq::new(
                    (cells@.len() - n0) as nat,
                    |_i: int| blank_model(CellAttributes::spec_default()),
                ),
            decreases cols - cells@.len(),
        {
            let ghost k = (cells@.len() - n0) as nat;
            let ghost before = cells@;
            let b = Cell::blank();
            cells.push(b);
            proof {
                lemma_push_cell(before, b);
                assert(start + Seq::new(k + 1, |_i: int| blank_model(CellAttributes::spec_default())) =~= (start
                    + Seq::new(k, |_i: int| blank_model(CellAttributes::spec_default()))).push(
                    blank_model(CellAttributes::spec_default()),
                ));
            }
        }
        cells
    }

    /// The cells of each viewport row, each padded to the width (see
    /// `visible_row_cells`).
    pub fn get_visible_cells(&self) -> (r: Vec<Vec<Cell>>)
        requires
            self.wf(),
        ensures
            r@.len() == self.state_view().model().screen.rows,
            forall|i: int|
                0 <= i < r@.len() ==> cell_models((#[trigger] r@[i])@) == visible_row_cells(
                    self.state_view().model().screen,
                    (i as isize) as int,
                    self.state_view().model().screen.cols,
                ),
    {
        proof {
            self.state.lemma_wf();
        }
        let screen = self.state.screen();
        let rows = self.state.rows();
        let cols = self.state.cols();
        let mut out: Vec<Vec<Cell>> = Vec::new();
        let mut i: usize = 0;
        while i < rows
            invariant
                i <= rows,
                rows == self.state_view().model().screen.rows,
                cols == self.state_view().model().screen.cols,
                self.wf(),
                screen.wf(),
                screen.model() == self.state_view().model().screen,
                out@.len() == i,
                forall|k: int|
                    0 <= k < i ==> cell_models((#[trigger] out@[k])@) == visible_row_cells(
                        self.state_view().model().screen,
                        (k as isize) as int,
                        cols as nat,
                    ),
            decreases rows - i,
        {
            let row = match screen.visible_to_phys(VisibleRowIndex::new(i as isize)) {
                Some(p) => self.phys_row_cells(p.get(), cols),
                None => {
                    let mut blank: Vec<Cell> = Vec::new();
                    let mut j: usize = 0;
                    assert(cell_models(blank@) =~= Seq::new(0, |_i: int| blank_model(CellAttributes::spec_default())));
                    while j < cols
                        invariant
                            j <= cols,
                            blank@.len() == j,
                            cell_models(blank@) == Seq::new(
                                j as nat,
                                |_i: int| blank_model(CellAttributes::spec_default()),
                            ),
                        decreases cols - j,
                    {
                        let ghost before = blank@;
                        let b = Cell::blank();
                        blank.push(b);
                        proof {
                            lemma_push_cell(before, b);
                            assert(Seq::new(
                                (j + 1) as nat,
                                |_i: int| blank_model(CellAttributes::spec_default()),
                            ) =~= Seq::new(j as nat, |_i: int| blank_model(CellAttributes::spec_default())).push(
                                blank_model(CellAttributes::spec_default()),
                            ));
                        }
                        j = j + 1;
                    }
                    assert(Seq::<CellModel>::empty() + Seq::new(
                        cols as nat,
                        |_i: int| blank_model(CellAttributes::spec_default()),
                    ) =~= cell_models(blank@));
                    blank
                },
            };
            out.push(row);
            i = i + 1;
        }
        out
    }

    /// Every stored line's cells, padded to the width, with the number of
    /// scrollback lines and of viewport rows.
    pub fn get_all_cells(&self) -> (r: (Vec<Vec<Cell>>, usize, usize))
        requires
            self.wf(),
        ensures
            r.0@.len() == self.state_view().model().screen.lines.len(),
            forall|i: int|
                0 <= i < r.0@.len() ==> cell_models((#[trigger] r.0@[i])@) == phys_cells(
                    self.state_view().model().screen,
                    i,
                    self.state_view().model().screen.cols,
                ),
            r.1 == self.state_view().model().screen.scrollback(),
            r.2 == self.state_view().model().screen.rows,
    {
        let screen = self.state.screen();
        let cols = self.state.cols();
        let total = screen.total_lines();
        let mut out: Vec<Vec<Cell>> = Vec::new();
        let mut i: usize = 0;
        while i < total
            invariant
                i <= total,
                total == self.state_view().model().screen.lines.len(),
                cols == self.state_view().model().screen.cols,
                self.wf(),
                out@.len() == i,
                forall|k: int|
                    0 <= k < i ==> cell_models((#[trigger] out@[k])@) == phys_cells(
                        self.state_view().model().screen,
                        k,
                        cols as nat,
                    ),
            decreases total - i,
        {
            let row = self.phys_row_cells(i, cols);
            out.push(row);
            i = i + 1;
        }
        (out, screen.scrollback_lines(), self.state.rows())
    }

    /// The number of scrollback lines and of all stored lines.
    pub fn scrollback_info(&self) -> (r: (usize, usize))
        ensures
            r == (
                self.state_view().model().screen.scrollback() as usize,
                self.state_view().model().screen.lines.len() as usize,
            ),
    {
        let screen = self.state.screen();
        (screen.scrollback_lines(), screen.total_lines())
    }

    /// The cursor as it is drawn.
    pub fn cursor_info(&self) -> (c: CursorInfo)
        ensures
            c == (CursorInfo {
                x: self.state_view().model().cursor.x,
                y: self.state_view().model().cursor.y,
                visible: self.state_view().model().cursor.visible,
                shape: self.state_view().model().cursor.shape,
            }),
    {
        let cursor = self.state.cursor();
        CursorInfo { x: cursor.x, y: cursor.y, visible: cursor.visible, shape: cursor.shape }
    }

    /// The cursor's column and row.
    pub fn cursor_position(&self) -> (r: (usize, usize))
        ensures
            r == (self.state_view().model().cursor.x, self.state_view().model().cursor.y),
    {
        let cursor = self.state.cursor();
        (cursor.x, cursor.y)
    }

    /// How many lines up from the bottom the view is scrolled (0: the
    /// newest content).
    pub fn display_offset(&self) -> (r: usize)
        ensures
            r == self.offset_view(),
    {
        self.display_offset
    }

    /// The furthest the view scrolls back: the scrollback lines from the
    /// first non-empty stored line on.
    pub fn max_display_offset(&self) -> (r: usize)
        ensures
            r == self.state_view().model().screen.effective_scrollback(),
    {
        self.state.screen().effective_scrollback_lines()
    }

    /// Scrolls back `lines` lines, not past the furthest.
    pub fn scroll_up_by(&mut self, lines: usize)
        requires
            old(self).offset_view() + lines <= usize::MAX,
        ensures
            final(self).offset_view() == offset_scrolled_up(
                old(self).offset_view(),
                lines as nat,
                old(self).state_view().model().screen.effective_scrollback(),
            ),
            final(self).state_view() == old(self).state_view(),
            final(self).size_view() == old(self).size_view(),
            final(self).wf() == old(self).wf(),
    {
        let max_offset = self.max_display_offset();
        let wanted = self.display_offset + lines;
        self.display_offset = if wanted <= max_offset { wanted } else { max_offset };
    }

    /// Scrolls forward `lines` lines, not past the newest content.
    pub fn scroll_down_by(&mut self, lines: usize)
        ensures
            final(self).offset_view() == offset_scrolled_down(old(self).offset_view(), lines as nat),
            final(self).state_view() == old(self).state_view(),
            final(self).size_view() == old(self).size_view(),
            final(self).wf() == old(self).wf(),
    {
        self.display_offset = self.display_offset.saturating_sub(lines);
    }

    /// Scrolls back as far as the view goes.
    pub fn scroll_to_top(&mut self)
        ensures
            final(self).offset_view() == old(self).state_view().model().screen.effective_scrollback(),
            final(self).state_view() == old(self).state_view(),
            final(self).size_view() == old(self).size_view(),
            final(self).wf() == old(self).wf(),
    {
        self.display_offset = self.max_display_offset();
    }

    /// Scrolls to the newest content.
    pub fn scroll_to_bottom(&mut self)
        ensures
            final(self).offset_view() == 0,
            final(self).state_view() == old(self).state_view(),
            final(self).size_view() == old(self).size_view(),
            final(self).wf() == old(self).wf(),
    {
        self.display_offset = 0;
    }

    /// The cells of the rows the view shows at its offset (see
    /// `viewport_range`), each padded to the width, with the number of
    /// stored lines and the offset.
    pub fn get_viewport_cells(&self) -> (r: (Vec<Vec<Cell>>, usize, usize))
        requires
            self.wf(),
        ensures
            ({
                let m = self.state_view().model().screen;
                let (start, end) = viewport_range(m.lines.len(), m.rows, self.offset_view());
                &&& r.0@.len() == end - start
                &&& forall|i: int|
                    0 <= i < r.0@.len() ==> cell_models((#[trigger] r.0@[i])@) == phys_cells(m, start + i, m.cols)
                &&& r.1 == m.lines.len()
                &&& r.2 == self.offset_view()
            }),
    {
        let screen = self.state.screen();
        let cols = self.state.cols();
        let rows = self.state.rows();
        let total = screen.total_lines();
        let offset = self.display_offset;
        let end = total.saturating_sub(offset);
        let start = end.saturating_sub(rows);
        let mut out: Vec<Vec<Cell>> = Vec::new();
        let mut p: usize = start;
        while p < end
            invariant
                start <= p <= end,
                cols == self.state_view().model().screen.cols,
                self.wf(),
                out@.len() == p - start,
                forall|k: int|
                    0 <= k < out@.len() ==> cell_models((#[trigger] out@[k])@) == phys_cells(
                        self.state_view().model().screen,
                        start + k,
                        cols as nat,
                    ),
            decreases end - p,
        {
            let row = self.phys_row_cells(p, cols);
            out.push(row);
            p = p + 1;
        }
        (out, total, offset)
    }
}

} // verus!
