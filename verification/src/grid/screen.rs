//! The screen: every line of scrollback and viewport in one store, the
//! viewport size, the scrollback limit, and a count of lines dropped from
//! the top so that stable row indices stay valid.
use vstd::prelude::*;

use super::cell::{Cell, CellModel};
use super::clusterline::concat_texts;
use super::line::{next_seqno, Line};
use super::stable_row_index::{PhysRowIndex, StableRowIndex, VisibleRowIndex};
use super::storage::resized;
use super::zone_range::ZoneRange;
use super::attributes::CellAttributes;
use super::cell::blank_model;
use crate::text::{trim_end, trimmed_end};

verus! {

/// What is observable of a line.
pub struct LineContent {
    pub cells: Seq<CellModel>,
    pub len: nat,
    pub clustered: bool,
    pub zones: Seq<ZoneRange>,
    pub bits: u16,
    pub seqno: u64,
}

/// The observable content of a line.
pub open spec fn content(l: Line) -> LineContent {
    LineContent {
        cells: l.cells_view(),
        len: l.spec_len(),
        clustered: l.storage() is C,
        zones: l.zones_view(),
        bits: l.bits_view(),
        seqno: l.seqno_view(),
    }
}

/// The content of a new empty line.
pub open spec fn blank_content() -> LineContent {
    LineContent {
        cells: Seq::empty(),
        len: 0,
        clustered: false,
        zones: Seq::empty(),
        bits: 0,
        seqno: 0,
    }
}

/// The content of a line after `clear`: no cells, zones or flags, the same
/// kind of storage, the sequence number bumped.
pub open spec fn cleared_content(c: LineContent) -> LineContent {
    LineContent {
        cells: Seq::empty(),
        len: 0,
        clustered: c.clustered,
        zones: Seq::empty(),
        bits: 0,
        seqno: next_seqno(c.seqno),
    }
}

/// The content of a line after `resize(n, fill)`: vector storage of the
/// resized cells, the sequence number bumped.
pub open spec fn resized_content(c: LineContent, n: nat, fill: CellModel) -> LineContent {
    LineContent {
        cells: resized(c.cells, n, fill),
        len: n,
        clustered: false,
        zones: c.zones,
        bits: c.bits,
        seqno: next_seqno(c.seqno),
    }
}

/// The smaller of two integers.
pub open spec fn min_int(a: int, b: int) -> int {
    if a <= b {
        a
    } else {
        b
    }
}

/// The store after scrolling the rows `base..end` up by `a` inside a
/// scroll region: every row of the region up to `end - a` takes the line
/// `a` rows below it (where that line is stored), and the last `a` rows of
/// the region become empty.
pub open spec fn region_scrolled_up(lines: Seq<LineContent>, base: int, end: int, a: int) -> Seq<LineContent> {
    Seq::new(
        lines.len(),
        |k: int|
            if end - a <= k < end {
                blank_content()
            } else if base <= k < end - a && k + a < lines.len() {
                lines[k + a]
            } else {
                lines[k]
            },
    )
}

/// The store after scrolling the rows `base..end` down by `a` inside a
/// scroll region: every row of the region from `base + a` on takes the line
/// `a` rows above it, and the first `a` rows of the region become empty.
pub open spec fn region_scrolled_down(lines: Seq<LineContent>, base: int, end: int, a: int) -> Seq<LineContent> {
    Seq::new(
        lines.len(),
        |k: int|
            if base <= k < base + a {
                blank_content()
            } else if base + a <= k < end {
                lines[k - a]
            } else {
                lines[k]
            },
    )
}

/// A line as `resize` leaves it: padded with blank cells to `cols` when shorter.
pub open spec fn widened(c: LineContent, cols: nat) -> LineContent {
    if c.len < cols {
        resized_content(c, cols, blank_model(CellAttributes::spec_default()))
    } else {
        c
    }
}

/// What is observable of a screen.
pub struct ScreenModel {
    pub lines: Seq<LineContent>,
    pub rows: nat,
    pub cols: nat,
    pub max_scrollback: nat,
    pub offset: nat,
}

impl ScreenModel {
    /// Lines above the viewport counted from the first non-empty stored
    /// line (0 when that line is in the viewport or there is none).
    pub open spec fn effective_scrollback(&self) -> nat {
        let first = if exists|i: int| 0 <= i < self.lines.len() && self.lines[i].len != 0 {
            choose|i: int|
                0 <= i < self.lines.len() && self.lines[i].len != 0 && forall|j: int|
                    0 <= j < i ==> (#[trigger] self.lines[j]).len == 0
        } else {
            self.lines.len() as int
        };
        if first >= self.scrollback() {
            0
        } else {
            (self.scrollback() - first) as nat
        }
    }

    /// The number of lines above the viewport.
    pub open spec fn scrollback(&self) -> nat {
        if self.lines.len() >= self.rows {
            (self.lines.len() - self.rows) as nat
        } else {
            0
        }
    }

    /// One `scroll_up`: past the scrollback limit the oldest line is dropped
    /// (and the offset counts it); an empty line is added at the bottom.
    pub open spec fn scrolled_up(&self) -> ScreenModel {
        let drop = self.scrollback() >= self.max_scrollback;
        let kept = if drop && self.lines.len() > 0 { self.lines.drop_first() } else { self.lines };
        ScreenModel {
            lines: kept.push(blank_content()),
            offset: if drop { self.offset + 1 } else { self.offset },
            ..*self
        }
    }

    /// The position in the store of a stable row, if it is still stored.
    pub open spec fn stable_to_phys(&self, stable: int) -> Option<int> {
        if stable < self.offset {
            None
        } else if stable - self.offset < self.lines.len() {
            Some(stable - self.offset)
        } else {
            None
        }
    }

    /// The stable row of a position in the store.
    pub open spec fn phys_to_stable(&self, phys: int) -> int {
        phys + self.offset
    }

    /// The position in the store of a row counted from the top of the
    /// viewport (negative rows are scrollback), if there is one.
    pub open spec fn visible_to_phys(&self, visible: int) -> Option<int> {
        if visible < 0 {
            if self.scrollback() + visible >= 0 {
                Some(self.scrollback() + visible)
            } else {
                None
            }
        } else if visible < self.rows {
            Some(self.scrollback() + visible)
        } else {
            None
        }
    }

    /// The row counted from the top of the viewport of a position in the store.
    pub open spec fn phys_to_visible(&self, phys: int) -> int {
        phys - self.scrollback()
    }

    /// One `scroll_down`: with scrollback present, the last line goes, an
    /// empty line comes in at the top, and the offset steps back (not below 0).
    pub open spec fn scrolled_down(&self) -> ScreenModel {
        if self.scrollback() > 0 {
            ScreenModel {
                lines: seq![blank_content()] + self.lines.drop_last(),
                offset: if self.offset > 0 { (self.offset - 1) as nat } else { 0 },
                ..*self
            }
        } else {
            *self
        }
    }

    /// `scroll_up_within_margins(top, bottom, n)`.
    pub open spec fn scrolled_up_within(&self, top: int, bottom: int, n: int) -> ScreenModel {
        if top >= bottom || n == 0 {
            *self
        } else if top == 0 && bottom == self.rows {
            self.scrolled_up_n(min_int(n, bottom - top) as nat)
        } else {
            ScreenModel {
                lines: region_scrolled_up(
                    self.lines,
                    self.scrollback() + top,
                    self.scrollback() + bottom,
                    min_int(n, bottom - top),
                ),
                ..*self
            }
        }
    }

    /// `scroll_down_within_margins(top, bottom, n)`.
    pub open spec fn scrolled_down_within(&self, top: int, bottom: int, n: int) -> ScreenModel {
        if top >= bottom || n == 0 {
            *self
        } else {
            ScreenModel {
                lines: region_scrolled_down(
                    self.lines,
                    self.scrollback() + top,
                    self.scrollback() + bottom,
                    min_int(n, bottom - top),
                ),
                ..*self
            }
        }
    }

    /// `insert_line(phys)`: an empty line inserted before `phys` (a stored
    /// position), the store then cut to viewport plus scrollback limit.
    pub open spec fn line_inserted(&self, phys: int) -> ScreenModel {
        if 0 <= phys < self.lines.len() {
            let ins = self.lines.insert(phys, blank_content());
            ScreenModel {
                lines: if ins.len() > self.rows + self.max_scrollback {
                    ins.take((self.rows + self.max_scrollback) as int)
                } else {
                    ins
                },
                ..*self
            }
        } else {
            *self
        }
    }

    /// `resize(new_rows, new_cols)`.
    pub open spec fn resized(&self, new_rows: nat, new_cols: nat) -> ScreenModel {
        let n = self.lines.len();
        let kept = if new_rows > self.rows {
            self.lines + Seq::new((new_rows - self.rows) as nat, |_i: int| blank_content())
        } else if new_rows < self.rows && n > new_rows {
            self.lines.take(
                if n - (self.rows - new_rows) > new_rows { n - (self.rows - new_rows) } else { new_rows as int },
            )
        } else {
            self.lines
        };
        ScreenModel {
            lines: kept.map_values(|c: LineContent| widened(c, new_cols)),
            rows: new_rows,
            cols: new_cols,
            ..*self
        }
    }

    /// `clear()`: `rows` empty lines, no scrollback, offset 0.
    pub open spec fn cleared(&self) -> ScreenModel {
        ScreenModel { lines: Seq::new(self.rows, |_i: int| blank_content()), offset: 0, ..*self }
    }

    /// `clear_scrollback()`: the scrollback lines dropped, the offset counting them.
    pub open spec fn scrollback_cleared(&self) -> ScreenModel {
        ScreenModel {
            lines: self.lines.skip(self.scrollback() as int),
            offset: self.offset + self.scrollback(),
            ..*self
        }
    }

    /// `n` times `scroll_up`.
    pub open spec fn scrolled_up_n(&self, n: nat) -> ScreenModel
        decreases n,
    {
        if n == 0 {
            *self
        } else {
            self.scrolled_up_n((n - 1) as nat).scrolled_up()
        }
    }
}

/// Row `phys` of a screen was lent out as `before` and came back as
/// `after`: the screen changed in that line alone.
pub open spec fn line_lent(old_s: Screen, new_s: Screen, phys: int, before: Line, after: Line) -> bool {
    &&& before == old_s.lines_view()[phys]
    &&& new_s.lines_view() == old_s.lines_view().update(phys, after)
    &&& new_s.model() == (ScreenModel { lines: old_s.model().lines.update(phys, content(after)), ..old_s.model() })
    &&& (old_s.wf() && after.wf() ==> new_s.wf())
}

/// The screen.
#[derive(Debug, Clone)]
pub struct Screen {
    lines: Vec<Line>,
    rows: usize,
    cols: usize,
    max_scrollback: usize,
    scrollback_offset: usize,
}

impl Screen {
    /// The lines.
    pub closed spec fn lines_view(&self) -> Seq<Line> {
        self.lines@
    }

    /// The observable state.
    pub closed spec fn model(&self) -> ScreenModel {
        ScreenModel {
            lines: contents(self.lines@),
            rows: self.rows as nat,
            cols: self.cols as nat,
            max_scrollback: self.max_scrollback as nat,
            offset: self.scrollback_offset as nat,
        }
    }

    /// Internal consistency: every line is well formed, and the viewport and
    /// scrollback sizes leave room below `isize::MAX`.
    pub closed spec fn wf(&self) -> bool {
        &&& forall|i: int| 0 <= i < self.lines@.len() ==> (#[trigger] self.lines@[i]).wf()
        &&& self.rows + self.max_scrollback < isize::MAX
        &&& self.lines@.len() <= self.rows + self.max_scrollback + 1
    }

    /// The line model is the content of each stored line.
    pub proof fn lemma_model_lines(&self)
        ensures
            self.model().lines.len() == self.lines_view().len(),
            forall|i: int|
                0 <= i < self.lines_view().len() ==> #[trigger] self.model().lines[i] == content(
                    self.lines_view()[i],
                ),
    {
    }

    /// Every stored line is well formed.
    pub proof fn lemma_wf_lines(&self)
        requires
            self.wf(),
        ensures
            forall|i: int| 0 <= i < self.lines_view().len() ==> (#[trigger] self.lines_view()[i]).wf(),
            self.model().rows + self.model().max_scrollback < isize::MAX,
            self.model().lines.len() <= self.model().rows + self.model().max_scrollback + 1,
    {
    }
}

/// The lines, mapped to their contents.
pub open spec fn contents(lines: Seq<Line>) -> Seq<LineContent> {
    lines.map_values(|l: Line| content(l))
}

/// Appending a line appends its content.
pub broadcast proof fn lemma_contents_push(lines: Seq<Line>, l: Line)
    ensures
        #[trigger] contents(lines.push(l)) == contents(lines).push(content(l)),
{
    assert(contents(lines.push(l)) =~= contents(lines).push(content(l)));
}

/// Removing a line removes its content.
pub broadcast proof fn lemma_contents_remove(lines: Seq<Line>, i: int)
    requires
        0 <= i < lines.len(),
    ensures
        #[trigger] contents(lines.remove(i)) == contents(lines).remove(i),
{
    assert(contents(lines.remove(i)) =~= contents(lines).remove(i));
}

/// Inserting a line inserts its content.
pub broadcast proof fn lemma_contents_insert(lines: Seq<Line>, i: int, l: Line)
    requires
        0 <= i <= lines.len(),
    ensures
        #[trigger] contents(lines.insert(i, l)) == contents(lines).insert(i, content(l)),
{
    assert(contents(lines.insert(i, l)) =~= contents(lines).insert(i, content(l)));
}

/// A run of lines has the run of their contents.
pub broadcast proof fn lemma_contents_subrange(lines: Seq<Line>, i: int, j: int)
    requires
        0 <= i <= j <= lines.len(),
    ensures
        #[trigger] contents(lines.subrange(i, j)) == contents(lines).subrange(i, j),
{
    assert(contents(lines.subrange(i, j)) =~= contents(lines).subrange(i, j));
}

/// Replacing one line replaces its content.
pub broadcast proof fn lemma_contents_update(lines: Seq<Line>, i: int, l: Line)
    requires
        0 <= i < lines.len(),
    ensures
        #[trigger] contents(lines.update(i, l)) == contents(lines).update(i, content(l)),
{
    assert(contents(lines.update(i, l)) =~= contents(lines).update(i, content(l)));
}

impl Screen {
    /// A screen of `rows` empty lines and no scrollback.
    pub fn new(rows: usize, cols: usize, max_scrollback: usize) -> (s: Screen)
        requires
            rows + max_scrollback < isize::MAX,
        ensures
            s.wf(),
            s.model() == (ScreenModel {
                lines: Seq::new(rows as nat, |_i: int| blank_content()),
                rows: rows as nat,
                cols: cols as nat,
                max_scrollback: max_scrollback as nat,
                offset: 0,
            }),
    {
        let mut lines: Vec<Line> = Vec::with_capacity(rows + max_scrollback);
        let mut i: usize = 0;
        while i < rows
            invariant
                i <= rows,
                lines@.len() == i,
                forall|j: int| 0 <= j < i ==> (#[trigger] lines@[j]).wf() && content(lines@[j]) == blank_content(),
            decreases rows - i,
        {
            lines.push(Line::with_capacity(cols));
            i = i + 1;
        }
        let s = Screen { lines, rows, cols, max_scrollback, scrollback_offset: 0 };
        assert(s.model().lines =~= Seq::new(rows as nat, |_i: int| blank_content()));
        s
    }

    /// Viewport rows.
    pub fn rows(&self) -> (n: usize)
        ensures
            n == self.model().rows,
    {
        self.rows
    }

    /// Viewport columns.
    pub fn cols(&self) -> (n: usize)
        ensures
            n == self.model().cols,
    {
        self.cols
    }

    /// All stored lines, scrollback and viewport.
    pub fn total_lines(&self) -> (n: usize)
        ensures
            n == self.model().lines.len(),
    {
        self.lines.len()
    }

    /// Lines above the viewport.
    pub fn scrollback_lines(&self) -> (n: usize)
        ensures
            n == self.model().scrollback(),
    {
        self.lines.len().saturating_sub(self.rows)
    }

    /// Lines above the viewport counted from the first non-empty stored line
    /// (0 when that line is in the viewport or there is none).
    pub fn effective_scrollback_lines(&self) -> (n: usize)
        ensures
            n == self.model().effective_scrollback(),
    {
        let mut first: usize = 0;
        while first < self.lines.len()
            invariant
                first <= self.lines@.len(),
                forall|j: int| 0 <= j < first ==> (#[trigger] self.model().lines[j]).len == 0,
            ensures
                first <= self.lines@.len(),
                forall|j: int| 0 <= j < first ==> (#[trigger] self.model().lines[j]).len == 0,
                first < self.lines@.len() ==> self.model().lines[first as int].len != 0,
            decreases self.lines@.len() - first,
        {
            if !self.lines[first].is_empty() {
                break;
            }
            first = first + 1;
        }
        proof {
            let m = self.model();
            if first < self.lines@.len() {
                let k = choose|i: int|
                    0 <= i < m.lines.len() && m.lines[i].len != 0 && forall|j: int|
                        0 <= j < i ==> (#[trigger] m.lines[j]).len == 0;
                assert(m.lines[first as int].len != 0);
                assert(k == first as int) by {
                    if k < first {
                    } else if k > first {
                        assert(m.lines[first as int].len == 0);
                    }
                }
            }
        }
        let sb = self.scrollback_lines();
        if first >= sb {
            0
        } else {
            sb - first
        }
    }

    /// The scrollback limit.
    pub fn max_scrollback(&self) -> (n: usize)
        ensures
            n == self.model().max_scrollback,
    {
        self.max_scrollback
    }

    /// How many lines have been dropped from the top so far.
    pub fn scrollback_offset(&self) -> (n: usize)
        ensures
            n == self.model().offset,
    {
        self.scrollback_offset
    }
}

impl Screen {
    /// The store position of a stable row; `None` once the row has been
    /// dropped from the top or past the last stored line.
    pub fn stable_to_phys(&self, stable: StableRowIndex) -> (r: Option<PhysRowIndex>)
        ensures
            r == (match self.model().stable_to_phys(stable.0 as int) {
                Some(p) => Some(PhysRowIndex(p as usize)),
                None => None,
            }),
    {
        let stable_idx = stable.get();
        if stable_idx < self.scrollback_offset {
            None
        } else {
            let phys_idx = stable_idx - self.scrollback_offset;
            if phys_idx < self.lines.len() {
                Some(PhysRowIndex::new(phys_idx))
            } else {
                None
            }
        }
    }

    /// The stable row of a store position.
    pub fn phys_to_stable(&self, phys: PhysRowIndex) -> (r: StableRowIndex)
        requires
            phys.0 + self.model().offset <= usize::MAX,
        ensures
            r.0 == self.model().phys_to_stable(phys.0 as int),
    {
        StableRowIndex::new(phys.get() + self.scrollback_offset)
    }

    /// The store position of a row counted from the top of the viewport;
    /// `None` above the oldest line and below the viewport.
    pub fn visible_to_phys(&self, visible: VisibleRowIndex) -> (r: Option<PhysRowIndex>)
        requires
            self.wf(),
        ensures
            r == (match self.model().visible_to_phys(visible.0 as int) {
                Some(p) => Some(PhysRowIndex(p as usize)),
                None => None,
            }),
    {
        let vis_idx = visible.get();
        let sb = self.scrollback_lines();
        if vis_idx < 0 {
            let phys_idx = sb as isize + vis_idx;
            if phys_idx >= 0 {
                Some(PhysRowIndex::new(phys_idx as usize))
            } else {
                None
            }
        } else if (vis_idx as usize) < self.rows {
            Some(PhysRowIndex::new(sb + vis_idx as usize))
        } else {
            None
        }
    }

    /// The row counted from the top of the viewport of a store position
    /// (the difference wraps into `isize` as in two's complement).
    pub fn phys_to_visible(&self, phys: PhysRowIndex) -> (r: VisibleRowIndex)
        requires
            self.wf(),
        ensures
            r.0 == (phys.0 - self.model().scrollback()) as isize,
    {
        let sb = self.scrollback_lines();
        let phys_idx = phys.get();
        if phys_idx < sb {
            VisibleRowIndex::new(phys_idx as isize - sb as isize)
        } else {
            VisibleRowIndex::new((phys_idx - sb) as isize)
        }
    }

    /// The line at a store position.
    pub fn get_line(&self, phys: PhysRowIndex) -> (r: Option<&Line>)
        ensures
            r == (if phys.0 < self.lines_view().len() { Some(&self.lines_view()[phys.0 as int]) } else { None }),
    {
        if phys.get() < self.lines.len() {
            Some(&self.lines[phys.get()])
        } else {
            None
        }
    }

    /// The line at a store position, for update in place.
    pub fn get_line_mut(&mut self, phys: PhysRowIndex) -> (r: Option<&mut Line>)
        ensures
            phys.0 < old(self).lines_view().len() ==> (r matches Some(l) && line_lent(
                *old(self),
                *final(self),
                phys.0 as int,
                *l,
                *final(l),
            )),
            phys.0 >= old(self).lines_view().len() ==> (r is None && *final(self) == *old(self)),
    {
        broadcast use lemma_contents_update;

        if phys.get() < self.lines.len() {
            Some(&mut self.lines[phys.get()])
        } else {
            None
        }
    }
}

impl Screen {
    /// The line of a stable row, if it is still stored.
    pub fn get_line_stable(&self, stable: StableRowIndex) -> (r: Option<&Line>)
        ensures
            r == (match self.model().stable_to_phys(stable.0 as int) {
                Some(p) => Some(&self.lines_view()[p]),
                None => None,
            }),
    {
        match self.stable_to_phys(stable) {
            Some(phys) => self.get_line(phys),
            None => None,
        }
    }

    /// The line of a stable row, for update in place.
    pub fn get_line_stable_mut(&mut self, stable: StableRowIndex) -> (r: Option<&mut Line>)
        ensures
            (match old(self).model().stable_to_phys(stable.0 as int) {
                Some(p) => r matches Some(l) && line_lent(*old(self), *final(self), p, *l, *final(l)),
                None => r is None && *final(self) == *old(self),
            }),
    {
        match self.stable_to_phys(stable) {
            Some(phys) => self.get_line_mut(phys),
            None => None,
        }
    }

    /// The line of a row counted from the top of the viewport.
    pub fn get_visible_line(&self, visible: VisibleRowIndex) -> (r: Option<&Line>)
        requires
            self.wf(),
        ensures
            r == (match self.model().visible_to_phys(visible.0 as int) {
                Some(p) => if p < self.lines_view().len() { Some(&self.lines_view()[p]) } else { None },
                None => None,
            }),
    {
        match self.visible_to_phys(visible) {
            Some(phys) => self.get_line(phys),
            None => None,
        }
    }

    /// The line of a row counted from the top of the viewport, for update in place.
    pub fn get_visible_line_mut(&mut self, visible: VisibleRowIndex) -> (r: Option<&mut Line>)
        requires
            old(self).wf(),
        ensures
            (match old(self).model().visible_to_phys(visible.0 as int) {
                Some(p) => if p < old(self).lines_view().len() {
                    r matches Some(l) && line_lent(*old(self), *final(self), p, *l, *final(l))
                } else {
                    r is None && *final(self) == *old(self)
                },
                None => r is None && *final(self) == *old(self),
            }),
    {
        match self.visible_to_phys(visible) {
            Some(phys) => self.get_line_mut(phys),
            None => None,
        }
    }
}

/// A stored line's stable row leads back to it.
pub proof fn lemma_phys_stable_round_trip(m: ScreenModel, phys: int)
    requires
        0 <= phys < m.lines.len(),
    ensures
        m.stable_to_phys(m.phys_to_stable(phys)) == Some(phys),
{
}

/// A stable row that is still stored has that stable row.
pub proof fn lemma_stable_phys_round_trip(m: ScreenModel, stable: int)
    requires
        m.stable_to_phys(stable) is Some,
    ensures
        m.phys_to_stable(m.stable_to_phys(stable)->0) == stable,
{
}

/// A stored line's row counted from the top of the viewport leads back to it.
pub proof fn lemma_phys_visible_round_trip(m: ScreenModel, phys: int)
    requires
        0 <= phys < m.lines.len(),
    ensures
        m.visible_to_phys(m.phys_to_visible(phys)) == Some(phys),
{
}

/// A viewport-relative row that has a store position is that position's row.
pub proof fn lemma_visible_phys_round_trip(m: ScreenModel, visible: int)
    requires
        m.visible_to_phys(visible) is Some,
    ensures
        m.phys_to_visible(m.visible_to_phys(visible)->0) == visible,
{
}

impl Screen {
    /// Scrolls the whole screen up one line: the top viewport line passes
    /// into the scrollback, and an empty line is added at the bottom. Once
    /// the scrollback is full the oldest line is dropped and the offset counts it.
    pub fn scroll_up(&mut self)
        requires
            old(self).wf(),
            old(self).model().scrollback() >= old(self).model().max_scrollback ==> old(self).model().offset
                < usize::MAX,
        ensures
            final(self).wf(),
            final(self).model() == old(self).model().scrolled_up(),
    {
        broadcast use lemma_contents_push, lemma_contents_remove;

        let sb = self.scrollback_lines();
        if sb >= self.max_scrollback {
            if self.lines.len() > 0 {
                self.lines.remove(0);
                assert(contents(old(self).lines@).remove(0) =~= contents(old(self).lines@).drop_first());
            }
            self.scrollback_offset = self.scrollback_offset + 1;
        }
        self.lines.push(Line::with_capacity(self.cols));
    }

    /// Scrolls back down one line while there is scrollback: the bottom line
    /// goes, an empty line comes in at the top, and the offset steps back.
    pub fn scroll_down(&mut self)
        requires
            old(self).wf(),
        ensures
            final(self).wf(),
            final(self).model() == old(self).model().scrolled_down(),
    {
        broadcast use lemma_contents_insert, lemma_contents_subrange;

        if self.scrollback_lines() > 0 {
            let _ = self.lines.pop();
            self.lines.insert(0, Line::with_capacity(self.cols));
            assert(contents(old(self).lines@.drop_last()).insert(0, blank_content()) =~= seq![blank_content()]
                + contents(old(self).lines@).drop_last());
            if self.scrollback_offset > 0 {
                self.scrollback_offset = self.scrollback_offset - 1;
            }
        }
    }
}

impl Screen {
    /// Scrolls rows `top..bottom` of the viewport up by `num_rows` (at most
    /// the region's height). The full viewport scrolls into the scrollback
    /// line by line; a smaller region scrolls in place and keeps the
    /// scrollback as it is.
    pub fn scroll_up_within_margins(&mut self, top: usize, bottom: usize, num_rows: usize)
        requires
            old(self).wf(),
            top < bottom && num_rows > 0 && top == 0 && bottom == old(self).model().rows ==> old(self).model().offset
                + min_int(num_rows as int, bottom - top) <= usize::MAX,
            top < bottom && num_rows > 0 && !(top == 0 && bottom == old(self).model().rows)
                ==> old(self).model().scrollback() + bottom + min_int(num_rows as int, bottom - top) <= usize::MAX,
        ensures
            final(self).wf(),
            final(self).model() == old(self).model().scrolled_up_within(top as int, bottom as int, num_rows as int),
    {
        broadcast use lemma_contents_update;

        if top >= bottom || num_rows == 0 {
            return;
        }
        let sb = self.scrollback_lines();
        let region_height = bottom - top;
        let actual = if num_rows < region_height { num_rows } else { region_height };
        if top == 0 && bottom == self.rows {
            let mut i: usize = 0;
            while i < actual
                invariant
                    i <= actual,
                    actual == min_int(num_rows as int, bottom - top),
                    self.wf(),
                    self.model() == old(self).model().scrolled_up_n(i as nat),
                    self.model().offset <= old(self).model().offset + i,
                    old(self).model().offset + actual <= usize::MAX,
                decreases actual - i,
            {
                self.scroll_up();
                i = i + 1;
            }
            return;
        }
        let ghost orig = contents(self.lines@);
        let ghost n = self.lines@.len();
        let base = sb + top;
        let end = sb + bottom;
        let moved = region_height - actual;
        let mut i: usize = 0;
        while i < moved
            invariant
                i <= moved,
                moved == bottom - top - actual,
                actual <= bottom - top,
                base == sb + top,
                end == sb + bottom,
                end + actual <= usize::MAX,
                self.lines@.len() == n,
                forall|k: int| 0 <= k < n ==> (#[trigger] self.lines@[k]).wf(),
                forall|k: int|
                    0 <= k < n ==> #[trigger] contents(self.lines@)[k] == (if base <= k < base + i && k + actual < n {
                        orig[k + actual]
                    } else {
                        orig[k]
                    }),
                self.rows == old(self).rows,
                self.cols == old(self).cols,
                self.max_scrollback == old(self).max_scrollback,
                self.scrollback_offset == old(self).scrollback_offset,
                orig == contents(old(self).lines@),
                n == old(self).lines@.len(),
            decreases moved - i,
        {
            let src = base + actual + i;
            let dst = base + i;
            if dst < self.lines.len() && src < self.lines.len() {
                assert(contents(self.lines@)[src as int] == orig[src as int]);
                let l = self.lines[src].duplicate();
                assert(l.wf());
                assert(content(l) == orig[src as int]);
                let ghost prev = self.lines@;
                self.lines.set(dst, l);
                proof {
                    lemma_contents_update(prev, dst as int, l);
                }
            }
            i = i + 1;
        }
        let mut j: usize = 0;
        while j < actual
            invariant
                j <= actual,
                actual <= bottom - top,
                base == sb + top,
                end == sb + bottom,
                self.lines@.len() == n,
                forall|k: int| 0 <= k < n ==> (#[trigger] self.lines@[k]).wf(),
                forall|k: int|
                    0 <= k < n ==> #[trigger] contents(self.lines@)[k] == (if end - actual <= k < end - actual + j {
                        blank_content()
                    } else if base <= k < end - actual && k + actual < n {
                        orig[k + actual]
                    } else {
                        orig[k]
                    }),
                self.rows == old(self).rows,
                self.cols == old(self).cols,
                self.max_scrollback == old(self).max_scrollback,
                self.scrollback_offset == old(self).scrollback_offset,
                orig == contents(old(self).lines@),
                n == old(self).lines@.len(),
            decreases actual - j,
        {
            let phys = end - actual + j;
            if phys < self.lines.len() {
                let ghost prev = self.lines@;
                let l = Line::with_capacity(self.cols);
                assert(content(l) == blank_content());
                self.lines.set(phys, l);
                proof {
                    lemma_contents_update(prev, phys as int, l);
                }
            }
            j = j + 1;
        }
        assert(contents(self.lines@) =~= region_scrolled_up(orig, base as int, end as int, actual as int));
    }

    /// Scrolls rows `top..bottom` of the viewport down by `num_rows` (at most
    /// the region's height), in place; the first rows of the region become empty.
    pub fn scroll_down_within_margins(&mut self, top: usize, bottom: usize, num_rows: usize)
        requires
            old(self).wf(),
            top < bottom && num_rows > 0 ==> old(self).model().scrollback() + bottom <= usize::MAX,
        ensures
            final(self).wf(),
            final(self).model() == old(self).model().scrolled_down_within(top as int, bottom as int, num_rows as int),
    {
        broadcast use lemma_contents_update;

        if top >= bottom || num_rows == 0 {
            return;
        }
        let sb = self.scrollback_lines();
        let region_height = bottom - top;
        let actual = if num_rows < region_height { num_rows } else { region_height };
        let ghost orig = contents(self.lines@);
        let ghost n = self.lines@.len();
        let base = sb + top;
        let end = sb + bottom;
        let mut i: usize = region_height - actual;
        while i > 0
            invariant
                i <= region_height - actual,
                region_height == bottom - top,
                actual <= region_height,
                base == sb + top,
                end == sb + bottom,
                self.lines@.len() == n,
                forall|k: int| 0 <= k < n ==> (#[trigger] self.lines@[k]).wf(),
                forall|k: int|
                    0 <= k < n ==> #[trigger] contents(self.lines@)[k] == (if base + actual + i <= k < end {
                        orig[k - actual]
                    } else {
                        orig[k]
                    }),
                self.rows == old(self).rows,
                self.cols == old(self).cols,
                self.max_scrollback == old(self).max_scrollback,
                self.scrollback_offset == old(self).scrollback_offset,
                orig == contents(old(self).lines@),
                n == old(self).lines@.len(),
            decreases i,
        {
            i = i - 1;
            let src = base + i;
            let dst = base + i + actual;
            if dst < end && src < self.lines.len() {
                if dst < self.lines.len() {
                    assert(contents(self.lines@)[src as int] == orig[src as int]);
                    let l = self.lines[src].duplicate();
                    assert(l.wf());
                    assert(content(l) == orig[src as int]);
                    let ghost prev = self.lines@;
                    self.lines.set(dst, l);
                    proof {
                        lemma_contents_update(prev, dst as int, l);
                    }
                }
            }
        }
        let mut j: usize = 0;
        while j < actual
            invariant
                j <= actual,
                actual <= region_height,
                region_height == bottom - top,
                base == sb + top,
                end == sb + bottom,
                self.lines@.len() == n,
                forall|k: int| 0 <= k < n ==> (#[trigger] self.lines@[k]).wf(),
                forall|k: int|
                    0 <= k < n ==> #[trigger] contents(self.lines@)[k] == (if base <= k < base + j {
                        blank_content()
                    } else if base + actual <= k < end {
                        orig[k - actual]
                    } else {
                        orig[k]
                    }),
                self.rows == old(self).rows,
                self.cols == old(self).cols,
                self.max_scrollback == old(self).max_scrollback,
                self.scrollback_offset == old(self).scrollback_offset,
                orig == contents(old(self).lines@),
                n == old(self).lines@.len(),
            decreases actual - j,
        {
            let phys = base + j;
            if phys < self.lines.len() {
                let ghost prev = self.lines@;
                let l = Line::with_capacity(self.cols);
                assert(content(l) == blank_content());
                self.lines.set(phys, l);
                proof {
                    lemma_contents_update(prev, phys as int, l);
                }
            }
            j = j + 1;
        }
        assert(contents(self.lines@) =~= region_scrolled_down(orig, base as int, end as int, actual as int));
    }
}

impl Screen {
    /// Inserts an empty line before a stored position; the store is then cut
    /// back to the viewport plus the scrollback limit. A position past the
    /// end changes nothing.
    pub fn insert_line(&mut self, phys: PhysRowIndex)
        requires
            old(self).wf(),
        ensures
            final(self).wf(),
            final(self).model() == old(self).model().line_inserted(phys.0 as int),
    {
        broadcast use lemma_contents_insert, lemma_contents_subrange;

        if phys.get() < self.lines.len() {
            self.lines.insert(phys.get(), Line::with_capacity(self.cols));
            let ghost ins = self.lines@;
            let max_total = self.rows + self.max_scrollback;
            while self.lines.len() > max_total
                invariant
                    max_total == self.rows + self.max_scrollback,
                    max_total < isize::MAX,
                    ins.len() <= max_total + 2,
                    self.lines@.len() <= ins.len(),
                    self.lines@ == ins.take(self.lines@.len() as int),
                    self.rows == old(self).rows,
                    self.cols == old(self).cols,
                    self.max_scrollback == old(self).max_scrollback,
                    self.scrollback_offset == old(self).scrollback_offset,
                    ins.len() > max_total ==> self.lines@.len() >= max_total,
                    ins.len() <= max_total ==> self.lines@ == ins,
                    forall|k: int| 0 <= k < ins.len() ==> (#[trigger] ins[k]).wf(),
                decreases self.lines@.len(),
            {
                let ghost prev = self.lines@;
                let _ = self.lines.pop();
                assert(prev == ins.take(prev.len() as int));
                assert(self.lines@ =~= ins.take(self.lines@.len() as int));
            }
            assert(ins.len() > max_total ==> self.lines@ =~= ins.take(max_total as int));
        }
    }

    /// Removes and returns the line at a stored position; `None` past the end.
    pub fn delete_line(&mut self, phys: PhysRowIndex) -> (r: Option<Line>)
        requires
            old(self).wf(),
        ensures
            final(self).wf(),
            phys.0 < old(self).lines_view().len() ==> (r == Some(old(self).lines_view()[phys.0 as int])
                && final(self).model() == (ScreenModel {
                    lines: old(self).model().lines.remove(phys.0 as int),
                    ..old(self).model()
                })),
            phys.0 >= old(self).lines_view().len() ==> (r is None && final(self).model() == old(self).model()),
    {
        broadcast use lemma_contents_remove;

        if phys.get() < self.lines.len() {
            Some(self.lines.remove(phys.get()))
        } else {
            None
        }
    }

    /// Sets the viewport size: lines are added at the bottom for a taller
    /// viewport and removed from the bottom (never below `new_rows` lines)
    /// for a shorter one; every line shorter than `new_cols` is padded with
    /// blank cells.
    pub fn resize(&mut self, new_rows: usize, new_cols: usize)
        requires
            old(self).wf(),
            new_rows + old(self).model().max_scrollback < isize::MAX,
        ensures
            final(self).wf(),
            final(self).model() == old(self).model().resized(new_rows as nat, new_cols as nat),
    {
        broadcast use lemma_contents_push, lemma_contents_subrange;

        let old_rows = self.rows;
        self.rows = new_rows;
        self.cols = new_cols;
        let ghost start = self.lines@;
        if new_rows > old_rows {
            let mut i: usize = 0;
            while i < new_rows - old_rows
                invariant
                    new_rows > old_rows,
                    i <= new_rows - old_rows,
                    self.lines@.len() == start.len() + i,
                    self.lines@.subrange(0, start.len() as int) == start,
                    forall|k: int| 0 <= k < self.lines@.len() ==> (#[trigger] self.lines@[k]).wf(),
                    contents(self.lines@) == contents(start) + Seq::new(i as nat, |_i: int| blank_content()),
                    self.rows == new_rows,
                    self.cols == new_cols,
                    self.max_scrollback == old(self).max_scrollback,
                    self.scrollback_offset == old(self).scrollback_offset,
                decreases new_rows - old_rows - i,
            {
                let ghost prev = self.lines@;
                let l = Line::with_capacity(new_cols);
                assert(content(l) == blank_content());
                self.lines.push(l);
                i = i + 1;
                assert(contents(start) + Seq::new(i as nat, |_i: int| blank_content()) =~= (contents(start)
                    + Seq::new((i - 1) as nat, |_i: int| blank_content())).push(blank_content()));
                assert(self.lines@.subrange(0, start.len() as int) =~= prev.subrange(0, start.len() as int));
            }
        } else if new_rows < old_rows {
            let to_remove = old_rows - new_rows;
            let mut i: usize = 0;
            while i < to_remove
                invariant
                    i <= to_remove,
                    to_remove == old_rows - new_rows,
                    self.lines@.len() <= start.len(),
                    self.lines@ == start.take(self.lines@.len() as int),
                    start.len() > new_rows ==> self.lines@.len() == (if start.len() - i > new_rows {
                        start.len() - i
                    } else {
                        new_rows as int
                    }),
                    start.len() <= new_rows ==> self.lines@ == start,
                    forall|k: int| 0 <= k < start.len() ==> (#[trigger] start[k]).wf(),
                    self.rows == new_rows,
                    self.cols == new_cols,
                    self.max_scrollback == old(self).max_scrollback,
                    self.scrollback_offset == old(self).scrollback_offset,
                decreases to_remove - i,
            {
                if self.lines.len() > new_rows {
                    let _ = self.lines.pop();
                    assert(self.lines@ =~= start.take(self.lines@.len() as int));
                }
                i = i + 1;
            }
            assert(start.len() <= new_rows ==> self.lines@ =~= start);
        }
        let ghost kept = self.lines@;
        assert(contents(kept) == (if new_rows > old_rows {
            contents(start) + Seq::new((new_rows - old_rows) as nat, |_i: int| blank_content())
        } else if new_rows < old_rows && start.len() > new_rows {
            contents(start).take(
                if start.len() - (old_rows - new_rows) > new_rows {
                    start.len() - (old_rows - new_rows)
                } else {
                    new_rows as int
                },
            )
        } else {
            contents(start)
        })) by {
            if new_rows < old_rows && start.len() > new_rows {
                assert(contents(kept) =~= contents(start).take(kept.len() as int));
            }
        }
        let mut j: usize = 0;
        while j < self.lines.len()
            invariant
                j <= self.lines@.len(),
                self.lines@.len() == kept.len(),
                forall|k: int| 0 <= k < kept.len() ==> (#[trigger] kept[k]).wf(),
                forall|k: int| 0 <= k < self.lines@.len() ==> (#[trigger] self.lines@[k]).wf(),
                forall|k: int| j <= k < kept.len() ==> #[trigger] self.lines@[k] == kept[k],
                forall|k: int|
                    0 <= k < kept.len() ==> #[trigger] contents(self.lines@)[k] == (if k < j {
                        widened(content(kept[k]), new_cols as nat)
                    } else {
                        content(kept[k])
                    }),
                self.rows == new_rows,
                self.cols == new_cols,
                self.max_scrollback == old(self).max_scrollback,
                self.scrollback_offset == old(self).scrollback_offset,
            decreases kept.len() - j,
        {
            if self.lines[j].len() < new_cols {
                let ghost prev = self.lines@;
                let fill = Cell::blank();
                self.lines[j].resize(new_cols, fill);
                proof {
                    lemma_contents_update(prev, j as int, self.lines@[j as int]);
                    assert(content(self.lines@[j as int]) == widened(content(kept[j as int]), new_cols as nat));
                }
            }
            j = j + 1;
        }
        assert(contents(self.lines@) =~= contents(kept).map_values(|c: LineContent| widened(c, new_cols as nat)));
    }

    /// Drops every line and starts over with `rows` empty lines, no
    /// scrollback and offset 0.
    pub fn clear(&mut self)
        requires
            old(self).wf(),
        ensures
            final(self).wf(),
            final(self).model() == old(self).model().cleared(),
    {
        self.lines.clear();
        let mut i: usize = 0;
        while i < self.rows
            invariant
                i <= self.rows,
                self.lines@.len() == i,
                forall|k: int| 0 <= k < i ==> (#[trigger] self.lines@[k]).wf() && content(self.lines@[k]) == blank_content(),
                self.rows == old(self).rows,
                self.cols == old(self).cols,
                self.max_scrollback == old(self).max_scrollback,
                self.rows + self.max_scrollback < isize::MAX,
            decreases self.rows - i,
        {
            self.lines.push(Line::with_capacity(self.cols));
            i = i + 1;
        }
        self.scrollback_offset = 0;
        assert(contents(self.lines@) =~= Seq::new(self.rows as nat, |_i: int| blank_content()));
    }

    /// Drops the scrollback lines; the offset counts them.
    pub fn clear_scrollback(&mut self)
        requires
            old(self).wf(),
            old(self).model().offset + old(self).model().scrollback() <= usize::MAX,
        ensures
            final(self).wf(),
            final(self).model() == old(self).model().scrollback_cleared(),
    {
        broadcast use lemma_contents_subrange;

        let viewport_start = self.scrollback_lines();
        let rest = self.lines.split_off(viewport_start);
        self.lines = rest;
        self.scrollback_offset = self.scrollback_offset + viewport_start;
        assert(contents(old(self).lines@).skip(viewport_start as int) =~= contents(old(self).lines@).subrange(
            viewport_start as int,
            old(self).lines@.len() as int,
        ));
    }
}

impl Screen {
    /// The text of the viewport row `visible_row`: the cells' texts
    /// concatenated, trailing white space trimmed; `None` past the last
    /// stored line.
    pub fn get_line_text(&self, visible_row: usize) -> (r: Option<String>)
        requires
            self.wf(),
            self.model().scrollback() + visible_row <= usize::MAX,
        ensures
            ({
                let p = self.model().scrollback() + visible_row;
                match r {
                    Some(t) => p < self.model().lines.len() && t@ == trimmed_end(
                        concat_texts(self.model().lines[p].cells),
                    ),
                    None => p >= self.model().lines.len(),
                }
            }),
    {
        let phys_idx = self.scrollback_lines() + visible_row;
        if phys_idx < self.lines.len() {
            let text = self.lines[phys_idx].text();
            Some(trim_end(text.as_str()))
        } else {
            None
        }
    }

    /// Every stored line with its store position, top to bottom.
    pub fn iter_phys(&self) -> (r: Vec<(PhysRowIndex, &Line)>)
        ensures
            r@.len() == self.lines_view().len(),
            forall|i: int|
                0 <= i < r@.len() ==> (#[trigger] r@[i]).0 == PhysRowIndex(i as usize) && *r@[i].1
                    == self.lines_view()[i],
    {
        let mut r: Vec<(PhysRowIndex, &Line)> = Vec::new();
        let mut i: usize = 0;
        while i < self.lines.len()
            invariant
                i <= self.lines@.len(),
                r@.len() == i,
                forall|k: int|
                    0 <= k < i ==> (#[trigger] r@[k]).0 == PhysRowIndex(k as usize) && *r@[k].1 == self.lines@[k],
            decreases self.lines@.len() - i,
        {
            r.push((PhysRowIndex::new(i), &self.lines[i]));
            i = i + 1;
        }
        r
    }

    /// The viewport lines that are stored, with their rows counted from the
    /// top of the viewport.
    pub fn iter_visible(&self) -> (r: Vec<(VisibleRowIndex, &Line)>)
        requires
            self.wf(),
        ensures
            r@.len() == min_int(self.model().rows as int, self.lines_view().len() - self.model().scrollback()),
            forall|i: int|
                0 <= i < r@.len() ==> (#[trigger] r@[i]).0 == VisibleRowIndex(i as isize) && *r@[i].1
                    == self.lines_view()[self.model().scrollback() + i],
    {
        let sb = self.scrollback_lines();
        let avail = self.lines.len() - sb;
        let count = if self.rows < avail { self.rows } else { avail };
        let total = self.lines.len();
        let mut r: Vec<(VisibleRowIndex, &Line)> = Vec::new();
        let mut i: usize = 0;
        while i < count
            invariant
                sb == self.model().scrollback(),
                count == min_int(self.rows as int, self.lines@.len() - sb),
                count < isize::MAX,
                sb + count <= total,
                total == self.lines@.len(),
                i <= count,
                r@.len() == i,
                forall|k: int|
                    0 <= k < i ==> (#[trigger] r@[k]).0 == VisibleRowIndex(k as isize) && *r@[k].1
                        == self.lines@[sb + k],
            decreases count - i,
        {
            let idx = sb + i;
            r.push((VisibleRowIndex::new(i as isize), &self.lines[idx]));
            i = i + 1;
        }
        r
    }

    /// The stored viewport lines, top to bottom.
    pub fn visible_lines(&self) -> (r: &[Line])
        requires
            self.wf(),
        ensures
            r@ == self.lines_view().subrange(
                self.model().scrollback() as int,
                min_int((self.model().scrollback() + self.model().rows) as int, self.lines_view().len() as int),
            ),
    {
        let start = self.scrollback_lines();
        let end = if start + self.rows < self.lines.len() { start + self.rows } else { self.lines.len() };
        vstd::slice::slice_subrange(self.lines.as_slice(), start, end)
    }
}

/// Scrolling up never lets the scrollback grow past its limit, once the
/// screen has a line.
pub proof fn lemma_scroll_up_keeps_limit(m: ScreenModel)
    requires
        m.scrollback() <= m.max_scrollback,
        m.lines.len() > 0,
    ensures
        m.scrolled_up().scrollback() <= m.max_scrollback,
{
}

/// Scrolling up keeps every stable row on the same line: a row that was
/// stored either still holds that line or was the oldest line, dropped.
pub proof fn lemma_scroll_up_keeps_stable_rows(m: ScreenModel, stable: int)
    requires
        m.stable_to_phys(stable) is Some,
    ensures
        (match m.scrolled_up().stable_to_phys(stable) {
            Some(p) => m.scrolled_up().lines[p] == m.lines[m.stable_to_phys(stable)->0],
            None => m.scrollback() >= m.max_scrollback && stable == m.offset,
        }),
{
}

/// Clearing the scrollback keeps every stable row of the viewport on the same line.
pub proof fn lemma_clear_scrollback_keeps_stable_rows(m: ScreenModel, stable: int)
    requires
        m.scrollback_cleared().stable_to_phys(stable) is Some,
    ensures
        m.stable_to_phys(stable) is Some,
        m.scrollback_cleared().lines[m.scrollback_cleared().stable_to_phys(stable)->0] == m.lines[m.stable_to_phys(
            stable,
        )->0],
        m.scrollback_cleared().scrollback() == 0,
{
}

} // verus!
