//! What the terminal does with what the escape-sequence parser finds:
//! printable characters, control bytes, CSI, ESC and OSC sequences, each
//! applied to the terminal state. The parser itself, and the listener that
//! receives the events, stay outside the library: the performer collects
//! its events and marks when the view needs drawing again.
use vstd::prelude::*;

use crate::event::{ShellIntegrationEvent, TerminalEvent};
use crate::shell_integration::json_types::JsonDataType;
use crate::shell_integration::scanner::{
    decode_lossy, json_parses, json_str_at, json_str_field, osc133_parse, parse_json, parse_osc133, unescaped,
    utf8_lossy, OscModel, OscScanner, OscSequence,
};
use crate::text::{has_prefix, str_equal, str_starts_with};
use crate::grid::attributes::{bit_flag, with_bit_field, with_bit_flag, CellAttributes};
use crate::grid::cell::{cell_width_of, display_width, Cell, CellModel};
use crate::grid::cell_attrs::{Intensity, UnderlineStyle};
use crate::grid::color::Color;
use crate::grid::cursor::{cap_below, Cursor, CursorShape};
use crate::grid::line::Line;
use crate::grid::screen::{blank_content, content, LineContent, Screen, ScreenModel};
use crate::grid::stable_row_index::{PhysRowIndex, VisibleRowIndex};
use crate::grid::storage::resized;
use crate::grid::cell::blank_model;
use crate::grid::clusterline::cell_models;
use crate::text::{decimal, push_decimal, push_str};
use vstd::utf8::encode_utf8;
use crate::grid::terminal_state::{blank_row_from, content_blanked, row_changed, TermModel, TerminalModes, TerminalState};

verus! {

/// The value of parameter `i` (its first sub-parameter), or `d` when there
/// is none.
pub open spec fn param_or(ps: Seq<Seq<u16>>, i: int, d: u16) -> u16 {
    if 0 <= i < ps.len() {
        ps[i][0]
    } else {
        d
    }
}

/// A count parameter: its value, at least 1 (1 when absent).
pub open spec fn count_param(ps: Seq<Seq<u16>>, i: int) -> usize {
    let v = param_or(ps, i, 1);
    if v < 1 {
        1
    } else {
        v as usize
    }
}

/// Every parameter has a first sub-parameter.
pub open spec fn params_ok(ps: Seq<Seq<u16>>) -> bool {
    forall|i: int| 0 <= i < ps.len() ==> (#[trigger] ps[i]).len() > 0
}

/// What one SGR code does to the attributes (codes 38 and 48 excepted).
pub open spec fn sgr_code(a: CellAttributes, v: u16) -> CellAttributes {
    let b = a.attr_bits();
    if v == 0 {
        CellAttributes::spec_default()
    } else if v == 1 {
        a.with_bits(with_bit_field(b, 0, 3, 1))
    } else if v == 2 {
        a.with_bits(with_bit_field(b, 0, 3, 2))
    } else if v == 3 || v == 5 || v == 6 {
        a.with_bits(with_bit_flag(b, 7, true))
    } else if v == 4 {
        a.with_bits(with_bit_field(b, 2, 7, 1))
    } else if v == 7 {
        a.with_bits(with_bit_flag(b, 8, true))
    } else if v == 8 {
        a.with_bits(with_bit_flag(b, 10, true))
    } else if v == 9 {
        a.with_bits(with_bit_flag(b, 9, true))
    } else if v == 21 {
        a.with_bits(with_bit_field(b, 2, 7, 2))
    } else if v == 22 {
        a.with_bits(with_bit_field(b, 0, 3, 0))
    } else if v == 23 || v == 25 {
        a.with_bits(with_bit_flag(b, 7, false))
    } else if v == 24 {
        a.with_bits(with_bit_field(b, 2, 7, 0))
    } else if v == 27 {
        a.with_bits(with_bit_flag(b, 8, false))
    } else if v == 28 {
        a.with_bits(with_bit_flag(b, 10, false))
    } else if v == 29 {
        a.with_bits(with_bit_flag(b, 9, false))
    } else if 30 <= v <= 37 {
        a.with_fg(Color::Indexed((v - 30) as u8))
    } else if v == 39 {
        a.with_fg(Color::DefaultForeground)
    } else if 40 <= v <= 47 {
        a.with_bg(Color::Indexed((v - 40) as u8))
    } else if v == 49 {
        a.with_bg(Color::DefaultBackground)
    } else if 90 <= v <= 97 {
        a.with_fg(Color::Indexed((v - 90 + 8) as u8))
    } else if 100 <= v <= 107 {
        a.with_bg(Color::Indexed((v - 100 + 8) as u8))
    } else {
        a
    }
}

/// The color that parameters `k..` give after a 38 or 48, and where the
/// parameters after it start: `2;r;g;b` a true color, `5;n` a palette
/// entry (values cut to a byte); a missing value gives no color and uses up
/// the rest, any other mode gives no color.
pub open spec fn color_at(ps: Seq<Seq<u16>>, k: int) -> (Option<Color>, int) {
    if k >= ps.len() {
        (None, ps.len() as int)
    } else if ps[k][0] == 2 {
        if k + 3 < ps.len() {
            (
                Some(Color::Rgb { r: ps[k + 1][0] as u8, g: ps[k + 2][0] as u8, b: ps[k + 3][0] as u8 }),
                k + 4,
            )
        } else {
            (None, ps.len() as int)
        }
    } else if ps[k][0] == 5 {
        if k + 1 < ps.len() {
            (Some(Color::Indexed(ps[k + 1][0] as u8)), k + 2)
        } else {
            (None, ps.len() as int)
        }
    } else {
        (None, k + 1)
    }
}

/// The attributes after the SGR parameters `k..`, applied in order.
pub open spec fn sgr_from(a: CellAttributes, ps: Seq<Seq<u16>>, k: int) -> CellAttributes
    decreases ps.len() - k,
{
    if k < 0 || k >= ps.len() {
        a
    } else {
        let v = ps[k][0];
        if v == 38 || v == 48 {
            let (c, next) = color_at(ps, k + 1);
            let a2 = match c {
                Some(col) => if v == 38 {
                    a.with_fg(col)
                } else {
                    a.with_bg(col)
                },
                None => a,
            };
            if next > k {
                sgr_from(a2, ps, next)
            } else {
                a2
            }
        } else {
            sgr_from(sgr_code(a, v), ps, k + 1)
        }
    }
}

/// The state after the attributes for new cells are set to `a`.
pub open spec fn attrs_set(m: TermModel, a: CellAttributes) -> TermModel {
    TermModel { attrs: a, cursor: Cursor { attrs: a, ..m.cursor }, ..m }
}

/// The cell written for character `c` with attributes `a`.
pub open spec fn char_cell(c: char, a: CellAttributes) -> CellModel {
    CellModel { text: seq![c], attrs: a, width: cell_width_of(display_width(seq![c])) }
}

/// The column a tab moves to from column `x`: the next multiple of 8,
/// not past the last column.
pub open spec fn tab_stop(x: usize, cols: nat) -> usize {
    let next = (x / 8 + 1) * 8;
    let last = if cols >= 1 { (cols - 1) as int } else { 0 };
    if next < last {
        next as usize
    } else {
        last as usize
    }
}

/// What a control byte does to the state: backspace, tab, line feed (also
/// vertical tab and form feed) and carriage return; anything else (the bell
/// included) leaves it.
pub open spec fn control_applied(m: TermModel, byte: u8) -> TermModel {
    if byte == 0x08 {
        TermModel { cursor: Cursor { x: if m.cursor.x >= 1 { (m.cursor.x - 1) as usize } else { 0 }, ..m.cursor }, ..m }
    } else if byte == 0x09 {
        TermModel { cursor: Cursor { x: tab_stop(m.cursor.x, m.screen.cols), ..m.cursor }, ..m }
    } else if byte == 0x0a || byte == 0x0b || byte == 0x0c {
        m.new_lined(false)
    } else if byte == 0x0d {
        TermModel { cursor: Cursor { x: 0, ..m.cursor }, ..m }
    } else {
        m
    }
}

/// What a control byte needs to stay within machine limits.
pub open spec fn control_fits(m: TermModel, byte: u8) -> bool {
    &&& byte == 0x09 ==> m.cursor.x + 8 <= usize::MAX
    &&& (byte == 0x0a || byte == 0x0b || byte == 0x0c) ==> m.new_line_fits()
}



/// A line just made of `cells`.
pub open spec fn fresh_content(cells: Seq<CellModel>) -> LineContent {
    LineContent { cells, len: cells.len(), clustered: false, zones: Seq::empty(), bits: 0, seqno: 0 }
}

/// The blank cell.
pub open spec fn blank_cell() -> CellModel {
    blank_model(CellAttributes::spec_default())
}

/// One character inserted at column `x` (when `x` is left of `cols`): the
/// line padded to reach `x`, a blank put at `x` with the rest moved right,
/// and cut to `cols` cells; the line is rebuilt from its cells.
pub open spec fn chars_inserted_once(c: LineContent, x: int, cols: int) -> LineContent {
    if x < cols {
        let n = if c.len >= x + 1 { c.len } else { (x + 1) as nat };
        let padded = resized(c.cells, n, blank_cell());
        let shifted = padded.take(x) + seq![blank_cell()] + padded.skip(x);
        fresh_content(if shifted.len() > cols { shifted.take(cols) } else { shifted })
    } else {
        c
    }
}

/// `chars_inserted_once` done `n` times.
pub open spec fn chars_inserted(c: LineContent, x: int, cols: int, n: nat) -> LineContent
    decreases n,
{
    if n == 0 {
        c
    } else {
        chars_inserted_once(chars_inserted(c, x, cols, (n - 1) as nat), x, cols)
    }
}

/// `n` characters deleted at column `x` (those inside the line), the rest
/// moved left; the line is rebuilt from its cells.
pub open spec fn chars_deleted(c: LineContent, x: int, n: int) -> LineContent {
    if x < c.cells.len() {
        let end = if x + n < c.cells.len() { x + n } else { c.cells.len() as int };
        fresh_content(c.cells.take(x) + c.cells.skip(end))
    } else {
        fresh_content(c.cells)
    }
}

/// A blank line inserted `n` times at the line shown at viewport row
/// `row` (found again each time).
pub open spec fn lines_inserted_at(s: ScreenModel, row: int, n: nat) -> ScreenModel
    decreases n,
{
    if n == 0 {
        s
    } else {
        let s1 = lines_inserted_at(s, row, (n - 1) as nat);
        match s1.visible_to_phys(row) {
            Some(p) => s1.line_inserted((p as usize) as int),
            None => s1,
        }
    }
}

/// The line shown at viewport row `row` removed `n` times (found again
/// each time; nothing where no line is stored there).
pub open spec fn lines_deleted_at(s: ScreenModel, row: int, n: nat) -> ScreenModel
    decreases n,
{
    if n == 0 {
        s
    } else {
        let s1 = lines_deleted_at(s, row, (n - 1) as nat);
        match s1.visible_to_phys(row) {
            Some(p) => {
                let q = (p as usize) as int;
                if q < s1.lines.len() {
                    ScreenModel { lines: s1.lines.remove(q), ..s1 }
                } else {
                    s1
                }
            },
            None => s1,
        }
    }
}

/// The screen scrolled down (a blank line at the top) `n` times.
pub open spec fn scrolled_down_times(s: ScreenModel, n: nat) -> ScreenModel
    decreases n,
{
    if n == 0 {
        s
    } else {
        scrolled_down_times(s, (n - 1) as nat).scrolled_down()
    }
}

/// The DEC private modes of parameters `k..` set (`on`) or reset: 7 is
/// automatic wrapping, 25 the cursor's visibility, 1049 the alternate
/// screen; others are ignored.
pub open spec fn dec_modes(m: TermModel, ps: Seq<Seq<u16>>, k: int, on: bool) -> TermModel
    decreases ps.len() - k,
{
    if k < 0 || k >= ps.len() {
        m
    } else {
        let v = ps[k][0];
        let m2 = if v == 7 {
            TermModel { modes: if on { m.modes | 2 } else { m.modes & !2u32 }, ..m }
        } else if v == 25 {
            TermModel { cursor: Cursor { visible: on, ..m.cursor }, ..m }
        } else if v == 1049 {
            if on {
                m.alternate_shown()
            } else {
                m.main_shown()
            }
        } else {
            m
        };
        dec_modes(m2, ps, k + 1, on)
    }
}

/// The cursor shape of a DECSCUSR style.
pub open spec fn style_shape(style: u16) -> CursorShape {
    if style == 3 || style == 4 {
        CursorShape::Underline
    } else if style == 5 || style == 6 {
        CursorShape::Bar
    } else {
        CursorShape::Block
    }
}

/// The screen with the line at the cursor's row changed by `f`.
pub open spec fn cursor_row_changed(m: TermModel, f: spec_fn(LineContent) -> LineContent) -> TermModel {
    TermModel { screen: row_changed(m.screen, (m.cursor.y as isize) as int, f), ..m }
}

/// The viewport row of the cursor, as the store is searched for it.
pub open spec fn cursor_row(m: TermModel) -> int {
    (m.cursor.y as isize) as int
}

/// What a CSI sequence does to the state, by its final character: cursor
/// movement (`A`-`G`, `d`, `H`, `f`), erasing (`J`, `K`, `X`), inserting
/// and deleting lines and characters (`L`, `M`, `@`, `P`), scrolling (`S`,
/// `T`), attributes (`m`), modes (`h`, `l` with `?`), cursor style (`q`),
/// scroll region (`r`), saving and restoring the cursor (`s`, `u`);
/// anything else (a status request `n` included) leaves it.
pub open spec fn csi_model(m: TermModel, ps: Seq<Seq<u16>>, inter: Seq<u8>, action: char) -> TermModel {
    let n = count_param(ps, 0);
    let x = m.cursor.x;
    let y = m.cursor.y;
    if action == 'm' {
        attrs_set(m, sgr_from(m.attrs, ps, 0))
    } else if action == 'A' {
        TermModel { cursor: Cursor { y: if y >= n { (y - n) as usize } else { 0 }, ..m.cursor }, ..m }
    } else if action == 'B' {
        TermModel { cursor: Cursor { y: cap_below(y + n, m.screen.rows as int) as usize, ..m.cursor }, ..m }
    } else if action == 'C' {
        TermModel { cursor: Cursor { x: cap_below(x + n, m.screen.cols as int) as usize, ..m.cursor }, ..m }
    } else if action == 'D' {
        TermModel { cursor: Cursor { x: if x >= n { (x - n) as usize } else { 0 }, ..m.cursor }, ..m }
    } else if action == 'H' || action == 'f' {
        m.cursor_moved((count_param(ps, 1) - 1) as usize, (count_param(ps, 0) - 1) as usize)
    } else if action == 'J' {
        m.display_erased(param_or(ps, 0, 0))
    } else if action == 'K' {
        m.line_erased(param_or(ps, 0, 0))
    } else if action == 'L' {
        TermModel { screen: lines_inserted_at(m.screen, cursor_row(m), n as nat), ..m }
    } else if action == 'M' {
        TermModel { screen: lines_deleted_at(m.screen, cursor_row(m), n as nat), ..m }
    } else if action == '@' {
        cursor_row_changed(m, |c: LineContent| chars_inserted(c, x as int, m.screen.cols as int, n as nat))
    } else if action == 'P' {
        cursor_row_changed(m, |c: LineContent| chars_deleted(c, x as int, n as int))
    } else if action == 'S' {
        m.scrolled_up(n)
    } else if action == 'T' {
        TermModel { screen: scrolled_down_times(m.screen, n as nat), ..m }
    } else if action == 'X' {
        cursor_row_changed(m, |c: LineContent| content_blanked(c, x as int, x + n))
    } else if action == 'E' {
        TermModel { cursor: Cursor { x: 0, y: cap_below(y + n, m.screen.rows as int) as usize, ..m.cursor }, ..m }
    } else if action == 'F' {
        TermModel { cursor: Cursor { x: 0, y: if y >= n { (y - n) as usize } else { 0 }, ..m.cursor }, ..m }
    } else if action == 'G' {
        m.cursor_moved((n - 1) as usize, y)
    } else if action == 'd' {
        m.cursor_moved(x, (n - 1) as usize)
    } else if action == 'h' || action == 'l' {
        if inter.len() > 0 && inter[0] == 0x3f {
            dec_modes(m, ps, 0, action == 'h')
        } else {
            m
        }
    } else if action == 'q' {
        if inter.len() == 0 {
            TermModel { cursor: Cursor { shape: style_shape(param_or(ps, 0, 0)), ..m.cursor }, ..m }
        } else {
            m
        }
    } else if action == 'r' {
        let top = (count_param(ps, 0) - 1) as usize;
        let b: int = if 1 < ps.len() { ps[1][0] as int } else { m.screen.rows as int };
        m.region_set(top, if b >= 1 { (b - 1) as usize } else { 0 })
    } else if action == 's' {
        m.cursor_saved()
    } else if action == 'u' {
        m.cursor_restored()
    } else {
        m
    }
}

/// What a CSI sequence needs to stay within machine limits.
pub open spec fn csi_fits(m: TermModel, ps: Seq<Seq<u16>>, action: char) -> bool {
    let n = count_param(ps, 0);
    let mode = param_or(ps, 0, 0);
    &&& (action == 'B' || action == 'E') ==> m.cursor.y + n <= usize::MAX
    &&& (action == 'C' || action == 'X' || action == 'P') ==> m.cursor.x + n <= usize::MAX
    &&& action == '@' ==> m.cursor.x < usize::MAX
    &&& action == 'J' ==> (mode == 0 ==> m.cursor.y < usize::MAX) && (mode == 1 ==> m.cursor.y <= isize::MAX)
    &&& action == 'S' ==> m.scroll_up_fits(n)
    &&& action == 'n' ==> m.cursor.y < usize::MAX && m.cursor.x < usize::MAX
}

/// The answer to a device status request: `ESC [ 0 n` for 5, the cursor
/// position `ESC [ row ; col R` (counted from 1) for 6.
pub open spec fn dsr_reply(m: TermModel, ps: Seq<Seq<u16>>) -> Option<Seq<char>> {
    let p = param_or(ps, 0, 0);
    if p == 5 {
        Some(seq!['\x1b', '[', '0', 'n'])
    } else if p == 6 {
        Some(seq!['\x1b', '['] + decimal((m.cursor.y + 1) as nat) + seq![';'] + decimal((m.cursor.x + 1) as nat)
            + seq!['R'])
    } else {
        None
    }
}


/// Inserts one blank character at column `x` (see `chars_inserted_once`).
fn insert_char_once(line: &mut Line, x: usize, cols: usize)
    requires
        old(line).wf(),
        x < usize::MAX,
    ensures
        final(line).wf(),
        content(*final(line)) == chars_inserted_once(content(*old(line)), x as int, cols as int),
{
    if x < cols {
        let len = line.len();
        let new_len = if len >= x + 1 { len } else { x + 1 };
        line.resize(new_len, Cell::blank());
        let mut cells = line.to_vec();
        let ghost padded = cell_models(cells@);
        let mut tail = cells.split_off(x);
        cells.push(Cell::blank());
        cells.append(&mut tail);
        if cells.len() > cols {
            cells.truncate(cols);
        }
        proof {
            let shifted = padded.take(x as int) + seq![blank_cell()] + padded.skip(x as int);
            let want = if shifted.len() > cols { shifted.take(cols as int) } else { shifted };
            assert(cell_models(cells@) =~= want);
        }
        *line = Line::from_cells(cells);
    }
}

/// Inserts `n` blank characters at column `x` (see `chars_inserted`).
fn insert_chars(line: &mut Line, x: usize, cols: usize, n: usize)
    requires
        old(line).wf(),
        x < usize::MAX,
    ensures
        final(line).wf(),
        content(*final(line)) == chars_inserted(content(*old(line)), x as int, cols as int, n as nat),
{
    let mut i: usize = 0;
    while i < n
        invariant
            i <= n,
            x < usize::MAX,
            line.wf(),
            content(*line) == chars_inserted(content(*old(line)), x as int, cols as int, i as nat),
        decreases n - i,
    {
        insert_char_once(line, x, cols);
        i = i + 1;
    }
}

/// Deletes `n` characters at column `x` (see `chars_deleted`).
fn delete_chars(line: &mut Line, x: usize, n: usize)
    requires
        old(line).wf(),
        x + n <= usize::MAX,
    ensures
        final(line).wf(),
        content(*final(line)) == chars_deleted(content(*old(line)), x as int, n as int),
{
    let mut cells = line.to_vec();
    let ghost old_cells = cell_models(cells@);
    let len = cells.len();
    if x < len {
        let end = if x + n < len { x + n } else { len };
        let mut tail = cells.split_off(end);
        cells.truncate(x);
        cells.append(&mut tail);
        assert(cell_models(cells@) =~= old_cells.take(x as int) + old_cells.skip(end as int));
    }
    *line = Line::from_cells(cells);
}

/// Inserts `n` blank characters at column `x` of the line shown at
/// viewport row `row`.
fn insert_chars_at_row(screen: &mut Screen, row: usize, x: usize, cols: usize, n: usize)
    requires
        old(screen).wf(),
        x < usize::MAX,
    ensures
        final(screen).wf(),
        final(screen).model() == row_changed(
            old(screen).model(),
            (row as isize) as int,
            |c: LineContent| chars_inserted(c, x as int, cols as int, n as nat),
        ),
{
    proof {
        screen.lemma_wf_lines();
        screen.lemma_model_lines();
    }
    match screen.visible_to_phys(VisibleRowIndex::new(row as isize)) {
        Some(phys) => {
            let ghost mut after: Line = vstd::pervasive::arbitrary();
            match screen.get_line_mut(phys) {
                Some(line) => {
                    insert_chars(line, x, cols, n);
                    proof {
                        after = *line;
                    }
                },
                None => {},
            }
            proof {
                screen.lemma_model_lines();
            }
        },
        None => {},
    }
}

/// Deletes `n` characters at column `x` of the line shown at viewport row
/// `row`.
fn delete_chars_at_row(screen: &mut Screen, row: usize, x: usize, n: usize)
    requires
        old(screen).wf(),
        x + n <= usize::MAX,
    ensures
        final(screen).wf(),
        final(screen).model() == row_changed(
            old(screen).model(),
            (row as isize) as int,
            |c: LineContent| chars_deleted(c, x as int, n as int),
        ),
{
    proof {
        screen.lemma_wf_lines();
        screen.lemma_model_lines();
    }
    match screen.visible_to_phys(VisibleRowIndex::new(row as isize)) {
        Some(phys) => {
            let ghost mut after: Line = vstd::pervasive::arbitrary();
            match screen.get_line_mut(phys) {
                Some(line) => {
                    delete_chars(line, x, n);
                    proof {
                        after = *line;
                    }
                },
                None => {},
            }
            proof {
                screen.lemma_model_lines();
            }
        },
        None => {},
    }
}

/// Inserts a blank line `n` times at the line shown at viewport row `row`
/// (see `lines_inserted_at`).
fn insert_lines_at_row(screen: &mut Screen, row: usize, n: usize)
    requires
        old(screen).wf(),
    ensures
        final(screen).wf(),
        final(screen).model() == lines_inserted_at(old(screen).model(), (row as isize) as int, n as nat),
{
    let mut i: usize = 0;
    while i < n
        invariant
            i <= n,
            screen.wf(),
            screen.model() == lines_inserted_at(old(screen).model(), (row as isize) as int, i as nat),
        decreases n - i,
    {
        match screen.visible_to_phys(VisibleRowIndex::new(row as isize)) {
            Some(phys) => screen.insert_line(phys),
            None => {},
        }
        i = i + 1;
    }
}

/// Removes the line shown at viewport row `row`, `n` times (see
/// `lines_deleted_at`).
fn delete_lines_at_row(screen: &mut Screen, row: usize, n: usize)
    requires
        old(screen).wf(),
    ensures
        final(screen).wf(),
        final(screen).model() == lines_deleted_at(old(screen).model(), (row as isize) as int, n as nat),
{
    let mut i: usize = 0;
    while i < n
        invariant
            i <= n,
            screen.wf(),
            screen.model() == lines_deleted_at(old(screen).model(), (row as isize) as int, i as nat),
        decreases n - i,
    {
        match screen.visible_to_phys(VisibleRowIndex::new(row as isize)) {
            Some(phys) => {
                proof {
                    screen.lemma_model_lines();
                }
                let _ = screen.delete_line(phys);
            },
            None => {},
        }
        i = i + 1;
    }
}

/// Scrolls the screen down (a blank line at the top) `n` times.
fn scroll_down_times(screen: &mut Screen, n: usize)
    requires
        old(screen).wf(),
    ensures
        final(screen).wf(),
        final(screen).model() == scrolled_down_times(old(screen).model(), n as nat),
{
    let mut i: usize = 0;
    while i < n
        invariant
            i <= n,
            screen.wf(),
            screen.model() == scrolled_down_times(old(screen).model(), i as nat),
        decreases n - i,
    {
        screen.scroll_down();
        i = i + 1;
    }
}


/// The value of parameter `i`, or `d` (see `param_or`).
fn param_value(params: &[Vec<u16>], i: usize, d: u16) -> (r: u16)
    requires
        params_ok(params@.map_values(|p: Vec<u16>| p@)),
    ensures
        r == param_or(params@.map_values(|p: Vec<u16>| p@), i as int, d),
{
    if i < params.len() {
        assert(params@.map_values(|p: Vec<u16>| p@)[i as int] == params@[i as int]@);
        params[i][0]
    } else {
        d
    }
}

/// A count parameter (see `count_param`).
fn count_value(params: &[Vec<u16>], i: usize) -> (r: usize)
    requires
        params_ok(params@.map_values(|p: Vec<u16>| p@)),
    ensures
        r == count_param(params@.map_values(|p: Vec<u16>| p@), i as int),
        1 <= r <= 65535,
{
    let v = param_value(params, i, 1);
    if v < 1 {
        1
    } else {
        v as usize
    }
}

/// The CSI answer to report, if any (only a status request has one).
pub open spec fn csi_reply(m: TermModel, ps: Seq<Seq<u16>>, action: char) -> Option<Seq<char>> {
    if action == 'n' {
        dsr_reply(m, ps)
    } else {
        None
    }
}


/// What an ESC sequence does to the state: `D` a line feed, `M` a reverse
/// index (the screen scrolls down), `c` a reset (screen cleared, cursor
/// home); anything else leaves it.
pub open spec fn esc_model(m: TermModel, byte: u8) -> TermModel {
    if byte == 0x44 {
        m.new_lined(false)
    } else if byte == 0x4d {
        TermModel { screen: m.screen.scrolled_down(), ..m }
    } else if byte == 0x63 {
        TermModel { screen: m.screen.cleared(), cursor: Cursor { x: 0, y: 0, ..m.cursor }, ..m }
    } else {
        m
    }
}

/// The kind of OSC 531 JSON data from its `type` field, as the performer
/// reads it.
pub open spec fn performer_json_kind(t: Option<Seq<char>>) -> JsonDataType {
    match t {
        Some(s) => if s == "prompt_start"@ || s == "shell_started"@ || s == "directory_changed"@ {
            JsonDataType::BlockMeta
        } else if s == "command_start"@ || s == "command_end"@ {
            JsonDataType::CommandMeta
        } else {
            JsonDataType::Custom
        },
        None => JsonDataType::Custom,
    }
}

/// What an OSC sequence amounts to.
pub enum OscEffect {
    /// Nothing.
    Nothing,
    /// The title is set.
    Title(Seq<char>),
    /// A shell integration sequence is reported.
    Raw(OscModel),
}

/// What an OSC sequence with parameters `ps` (split at `;` by the parser)
/// amounts to: `0` and `2` set the title, `133` reports prompt and command
/// marks, `633` the working directory (`P;Cwd=`) or the command (`E;`), and
/// `531` JSON data; anything else nothing.
pub open spec fn osc_effect(ps: Seq<Seq<u8>>) -> OscEffect {
    if ps.len() == 0 {
        OscEffect::Nothing
    } else {
        let cmd = utf8_lossy(ps[0]);
        if cmd == "0"@ || cmd == "2"@ {
            if ps.len() > 1 {
                OscEffect::Title(utf8_lossy(ps[1]))
            } else {
                OscEffect::Nothing
            }
        } else if ps.len() < 2 {
            OscEffect::Nothing
        } else if cmd == "133"@ {
            match osc133_parse(utf8_lossy(ps[1])) {
                Some(m) => OscEffect::Raw(m),
                None => OscEffect::Nothing,
            }
        } else if cmd == "633"@ {
            let sub = utf8_lossy(ps[1]);
            if has_prefix(sub, "P;Cwd="@) {
                OscEffect::Raw(OscModel::WorkingDirectory(sub.skip(6)))
            } else if has_prefix(sub, "E;"@) {
                OscEffect::Raw(OscModel::CommandText(sub.skip(2)))
            } else {
                OscEffect::Nothing
            }
        } else if cmd == "531"@ {
            let t = unescaped(utf8_lossy(ps[1]));
            if json_parses(t) {
                OscEffect::Raw(OscModel::JsonData { text: t })
            } else {
                OscEffect::Nothing
            }
        } else {
            OscEffect::Nothing
        }
    }
}

/// Reading the OSC 133 parameter would slice a string inside a character
/// (its first character takes more than one byte).
pub open spec fn osc_faults(ps: Seq<Seq<u8>>) -> bool {
    &&& ps.len() >= 2
    &&& utf8_lossy(ps[0]) == "133"@
    &&& utf8_lossy(ps[1]).len() > 0
    &&& utf8_lossy(ps[1])[0] as u32 >= 0x80
}

/// The reported sequence `q` is what the performer makes of meaning `m`.
pub open spec fn raw_matches(q: OscSequence, m: OscModel) -> bool {
    match m {
        OscModel::JsonData { text } => q matches OscSequence::JsonData { data_type, payload } && json_parses(text)
            && data_type == performer_json_kind(json_str_at(payload, "type"@)),
        _ => q.scanned_as(m),
    }
}

/// The event reported for effect `e`, if any, is `ev`.
pub open spec fn osc_event_matches(ev: TerminalEvent, e: OscEffect) -> bool {
    match e {
        OscEffect::Title(t) => ev matches TerminalEvent::TitleChanged(s) && s@ == t,
        OscEffect::Raw(m) => ev matches TerminalEvent::ShellIntegration(ShellIntegrationEvent::RawOscSequence(q))
            && raw_matches(q, m),
        OscEffect::Nothing => false,
    }
}

/// The kind of JSON data (see `performer_json_kind`).
fn json_kind_of(payload: &serde_json::Value) -> (r: JsonDataType)
    ensures
        r == performer_json_kind(json_str_at(*payload, "type"@)),
{
    proof {
        reveal_strlit("prompt_start");
        reveal_strlit("shell_started");
        reveal_strlit("directory_changed");
        reveal_strlit("command_start");
        reveal_strlit("command_end");
    }
    match json_str_field(payload, "type") {
        Some(t) => {
            let ts = t.as_str();
            if str_equal(ts, "prompt_start") || str_equal(ts, "shell_started") || str_equal(ts, "directory_changed") {
                JsonDataType::BlockMeta
            } else if str_equal(ts, "command_start") || str_equal(ts, "command_end") {
                JsonDataType::CommandMeta
            } else {
                JsonDataType::Custom
            }
        },
        None => JsonDataType::Custom,
    }
}

/// The shell integration sequence an OSC 133, 633 or 531 reports.
fn osc_raw(cmd: &str, sub: &str) -> (r: Option<OscSequence>)
    requires
        cmd@ == "133"@ ==> !(sub@.len() > 0 && sub@[0] as u32 >= 0x80),
    ensures
        cmd@ == "133"@ ==> (match r {
            Some(q) => osc133_parse(sub@) matches Some(m) && raw_matches(q, m),
            None => osc133_parse(sub@) is None,
        }),
        cmd@ != "133"@ && cmd@ == "633"@ ==> (match r {
            Some(q) => (if has_prefix(sub@, "P;Cwd="@) {
                raw_matches(q, OscModel::WorkingDirectory(sub@.skip(6)))
            } else {
                has_prefix(sub@, "E;"@) && raw_matches(q, OscModel::CommandText(sub@.skip(2)))
            }),
            None => !has_prefix(sub@, "P;Cwd="@) && !has_prefix(sub@, "E;"@),
        }),
        cmd@ != "133"@ && cmd@ != "633"@ && cmd@ == "531"@ ==> (match r {
            Some(q) => json_parses(unescaped(sub@)) && raw_matches(q, OscModel::JsonData { text: unescaped(sub@) }),
            None => !json_parses(unescaped(sub@)),
        }),
        cmd@ != "133"@ && cmd@ != "633"@ && cmd@ != "531"@ ==> r is None,
{
    proof {
        reveal_strlit("133");
        reveal_strlit("633");
        reveal_strlit("531");
        reveal_strlit("P;Cwd=");
        reveal_strlit("E;");
    }
    if str_equal(cmd, "133") {
        match parse_osc133(sub) {
            Some(q) => {
                proof {
                    let m = osc133_parse(sub@)->0;
                    assert(!(m is JsonData));
                }
                Some(q)
            },
            None => None,
        }
    } else if str_equal(cmd, "633") {
        let n = sub.unicode_len();
        if str_starts_with(sub, "P;Cwd=") {
            let t = sub.substring_char(6, n);
            assert(t@ =~= sub@.skip(6));
            let mut out = String::new();
            push_str(&mut out, t);
            Some(OscSequence::WorkingDirectory(out))
        } else if str_starts_with(sub, "E;") {
            let t = sub.substring_char(2, n);
            assert(t@ =~= sub@.skip(2));
            let mut out = String::new();
            push_str(&mut out, t);
            Some(OscSequence::CommandText(out))
        } else {
            None
        }
    } else if str_equal(cmd, "531") {
        let text = OscScanner::unescape_value(sub);
        match parse_json(text.as_str()) {
            Some(payload) => {
                let data_type = json_kind_of(&payload);
                Some(OscSequence::JsonData { data_type, payload })
            },
            None => None,
        }
    } else {
        None
    }
}

/// `after` is `before` with only its packed bits changed, to `bits`.
proof fn lemma_bits_changed(before: CellAttributes, after: CellAttributes, bits: u32)
    requires
        after.attr_bits() == bits,
        after.fg() == before.fg(),
        after.bg() == before.bg(),
        after.ul_color() == before.ul_color(),
    ensures
        after == before.with_bits(bits),
{
    before.lemma_with(bits, Color::DefaultForeground);
    CellAttributes::lemma_eq(after, before.with_bits(bits));
}

/// Sets the foreground color.
fn set_fg(a: &mut CellAttributes, c: Color)
    ensures
        *final(a) == old(a).with_fg(c),
{
    let ghost before = *a;
    a.set_foreground(c);
    proof {
        before.lemma_with(0, c);
        CellAttributes::lemma_eq(*a, before.with_fg(c));
    }
}

/// Sets the background color.
fn set_bg(a: &mut CellAttributes, c: Color)
    ensures
        *final(a) == old(a).with_bg(c),
{
    let ghost before = *a;
    a.set_background(c);
    proof {
        before.lemma_with(0, c);
        CellAttributes::lemma_eq(*a, before.with_bg(c));
    }
}

/// Applies one SGR code other than 38 and 48 (see `sgr_code`).
fn apply_sgr_code(a: &mut CellAttributes, v: u16)
    ensures
        *final(a) == sgr_code(*old(a), v),
{
    let ghost before = *a;
    let ghost b = before.attr_bits();
    if v == 0 {
        *a = CellAttributes::default();
    } else if v == 1 {
        a.set_intensity(Intensity::Bold);
        proof { lemma_bits_changed(before, *a, with_bit_field(b, 0, 3, 1)); }
    } else if v == 2 {
        a.set_intensity(Intensity::Dim);
        proof { lemma_bits_changed(before, *a, with_bit_field(b, 0, 3, 2)); }
    } else if v == 3 || v == 5 || v == 6 {
        a.set_italic(true);
        proof { lemma_bits_changed(before, *a, with_bit_flag(b, 7, true)); }
    } else if v == 4 {
        a.set_underline(UnderlineStyle::Single);
        proof { lemma_bits_changed(before, *a, with_bit_field(b, 2, 7, 1)); }
    } else if v == 7 {
        a.set_reverse(true);
        proof { lemma_bits_changed(before, *a, with_bit_flag(b, 8, true)); }
    } else if v == 8 {
        a.set_invisible(true);
        proof { lemma_bits_changed(before, *a, with_bit_flag(b, 10, true)); }
    } else if v == 9 {
        a.set_strikethrough(true);
        proof { lemma_bits_changed(before, *a, with_bit_flag(b, 9, true)); }
    } else if v == 21 {
        a.set_underline(UnderlineStyle::Double);
        proof { lemma_bits_changed(before, *a, with_bit_field(b, 2, 7, 2)); }
    } else if v == 22 {
        a.set_intensity(Intensity::Normal);
        proof { lemma_bits_changed(before, *a, with_bit_field(b, 0, 3, 0)); }
    } else if v == 23 || v == 25 {
        a.set_italic(false);
        proof { lemma_bits_changed(before, *a, with_bit_flag(b, 7, false)); }
    } else if v == 24 {
        a.set_underline(UnderlineStyle::NoUnderline);
        proof { lemma_bits_changed(before, *a, with_bit_field(b, 2, 7, 0)); }
    } else if v == 27 {
        a.set_reverse(false);
        proof { lemma_bits_changed(before, *a, with_bit_flag(b, 8, false)); }
    } else if v == 28 {
        a.set_invisible(false);
        proof { lemma_bits_changed(before, *a, with_bit_flag(b, 10, false)); }
    } else if v == 29 {
        a.set_strikethrough(false);
        proof { lemma_bits_changed(before, *a, with_bit_flag(b, 9, false)); }
    } else if 30 <= v && v <= 37 {
        set_fg(a, Color::Indexed((v - 30) as u8));
    } else if v == 39 {
        set_fg(a, Color::DefaultForeground);
    } else if 40 <= v && v <= 47 {
        set_bg(a, Color::Indexed((v - 40) as u8));
    } else if v == 49 {
        set_bg(a, Color::DefaultBackground);
    } else if 90 <= v && v <= 97 {
        set_fg(a, Color::Indexed((v - 90 + 8) as u8));
    } else if 100 <= v && v <= 107 {
        set_bg(a, Color::Indexed((v - 100 + 8) as u8));
    }
}

/// Reads the color after a 38 or 48 from parameter `k` on (see
/// `color_at`).
fn parse_color(params: &[Vec<u16>], k: usize) -> (r: (Option<Color>, usize))
    requires
        params_ok(params@.map_values(|p: Vec<u16>| p@)),
    ensures
        (r.0, r.1 as int) == color_at(params@.map_values(|p: Vec<u16>| p@), k as int),
{
    let ghost ps = params@.map_values(|p: Vec<u16>| p@);
    let n = params.len();
    if k >= n {
        return (None, n);
    }
    assert(ps[k as int] == params@[k as int]@);
    let mode = params[k][0];
    if mode == 2 {
        if n - k > 3 {
            assert(ps[k + 1] == params@[k + 1]@);
            assert(ps[k + 2] == params@[k + 2]@);
            assert(ps[k + 3] == params@[k + 3]@);
            let r = #[verifier::truncate] (params[k + 1][0] as u8);
            let g = #[verifier::truncate] (params[k + 2][0] as u8);
            let b = #[verifier::truncate] (params[k + 3][0] as u8);
            (Some(Color::Rgb { r, g, b }), k + 4)
        } else {
            (None, n)
        }
    } else if mode == 5 {
        if n - k > 1 {
            assert(ps[k + 1] == params@[k + 1]@);
            (Some(Color::Indexed(#[verifier::truncate] (params[k + 1][0] as u8))), k + 2)
        } else {
            (None, n)
        }
    } else {
        (None, k + 1)
    }
}

/// Applies what the parser finds to a terminal state, collecting the
/// events to report and whether the view needs drawing again.
pub struct VtePerformer {
    needs_wakeup: bool,
    events: Vec<TerminalEvent>,
}

impl VtePerformer {
    /// Whether the view needs drawing again.
    pub closed spec fn dirty(&self) -> bool {
        self.needs_wakeup
    }

    /// The events collected and not yet taken, oldest first.
    pub closed spec fn pending(&self) -> Seq<TerminalEvent> {
        self.events@
    }

    /// A performer with nothing to report.
    pub fn new() -> (p: VtePerformer)
        ensures
            !p.dirty(),
            p.pending().len() == 0,
    {
        VtePerformer { needs_wakeup: false, events: Vec::new() }
    }

    /// Whether the view needs drawing again; the mark is cleared.
    pub fn take_needs_wakeup(&mut self) -> (r: bool)
        ensures
            r == old(self).dirty(),
            !final(self).dirty(),
            final(self).pending() == old(self).pending(),
    {
        let r = self.needs_wakeup;
        self.needs_wakeup = false;
        r
    }

    /// Queues a redraw event if the view needs drawing again (and clears
    /// the mark).
    pub fn flush_wakeup(&mut self)
        ensures
            !final(self).dirty(),
            final(self).pending() == if old(self).dirty() {
                old(self).pending().push(TerminalEvent::Wakeup)
            } else {
                old(self).pending()
            },
    {
        if self.take_needs_wakeup() {
            self.events.push(TerminalEvent::Wakeup);
        }
    }

    /// The collected events, oldest first; none are left.
    pub fn take_events(&mut self) -> (r: Vec<TerminalEvent>)
        ensures
            r@ == old(self).pending(),
            final(self).pending().len() == 0,
            final(self).dirty() == old(self).dirty(),
    {
        let mut r: Vec<TerminalEvent> = Vec::new();
        std::mem::swap(&mut r, &mut self.events);
        r
    }

    /// Writes character `c` at the cursor with the current attributes (see
    /// `TermModel::cell_written`); the view needs drawing again.
    pub fn print(&mut self, state: &mut TerminalState, c: char)
        requires
            old(state).wf(),
            old(state).model().wrap_next ==> old(state).model().new_line_fits(),
            !old(state).model().wrap_next ==> old(state).model().cursor.x + 255 <= usize::MAX,
        ensures
            final(state).wf(),
            final(state).model() == old(state).model().cell_written(char_cell(c, old(state).model().attrs)),
            final(self).dirty(),
            final(self).pending() == old(self).pending(),
    {
        let attrs = state.attrs().copy();
        let cell = Cell::from_char_with_attrs(c, attrs);
        state.write_cell(cell);
        self.needs_wakeup = true;
    }

    /// Carries out a control byte (see `control_applied`); the bell is
    /// reported as an event.
    pub fn execute(&mut self, state: &mut TerminalState, byte: u8)
        requires
            old(state).wf(),
            control_fits(old(state).model(), byte),
        ensures
            final(state).wf(),
            final(state).model() == control_applied(old(state).model(), byte),
            final(self).dirty() == old(self).dirty(),
            final(self).pending() == if byte == 0x07 {
                old(self).pending().push(TerminalEvent::BellRing)
            } else {
                old(self).pending()
            },
    {
        if byte == 0x07 {
            self.events.push(TerminalEvent::BellRing);
        } else if byte == 0x08 {
            state.cursor_mut().move_left(1);
        } else if byte == 0x09 {
            let max_cols = state.cols();
            let last = if max_cols >= 1 { max_cols - 1 } else { 0 };
            let cursor = state.cursor_mut();
            let next_tab = (cursor.x / 8 + 1) * 8;
            cursor.x = if next_tab < last { next_tab } else { last };
        } else if byte == 0x0a || byte == 0x0b || byte == 0x0c {
            state.new_line(false);
        } else if byte == 0x0d {
            state.cursor_mut().carriage_return();
        }
    }

    /// Cursor movement: `A`-`G`, `d`, `H`, `f` (see `csi_model`).
    fn csi_cursor(state: &mut TerminalState, params: &[Vec<u16>], action: char)
        requires
            old(state).wf(),
            params_ok(params@.map_values(|p: Vec<u16>| p@)),
            csi_fits(old(state).model(), params@.map_values(|p: Vec<u16>| p@), action),
            action == 'A' || action == 'B' || action == 'C' || action == 'D' || action == 'E' || action == 'F'
                || action == 'G' || action == 'd' || action == 'H' || action == 'f',
        ensures
            final(state).wf(),
            final(state).model() == csi_model(
                old(state).model(),
                params@.map_values(|p: Vec<u16>| p@),
                Seq::empty(),
                action,
            ),
    {
        let n = count_value(params, 0);
        if action == 'A' {
            state.cursor_mut().move_up(n);
        } else if action == 'B' {
            let max_rows = state.rows();
            state.cursor_mut().move_down(n, max_rows);
        } else if action == 'C' {
            let max_cols = state.cols();
            state.cursor_mut().move_right(n, max_cols);
        } else if action == 'D' {
            state.cursor_mut().move_left(n);
        } else if action == 'E' {
            let max_rows = state.rows();
            state.cursor_mut().move_down(n, max_rows);
            state.cursor_mut().carriage_return();
        } else if action == 'F' {
            state.cursor_mut().move_up(n);
            state.cursor_mut().carriage_return();
        } else if action == 'G' {
            let y = state.cursor().y;
            state.set_cursor_pos(n - 1, y);
        } else if action == 'd' {
            let x = state.cursor().x;
            state.set_cursor_pos(x, n - 1);
        } else {
            let row = n - 1;
            let col = count_value(params, 1) - 1;
            state.set_cursor_pos(col, row);
        }
    }

    /// Erasing, inserting, deleting and scrolling: `J`, `K`, `L`, `M`, `@`,
    /// `P`, `S`, `T`, `X` (see `csi_model`).
    fn csi_edit(state: &mut TerminalState, params: &[Vec<u16>], action: char)
        requires
            old(state).wf(),
            params_ok(params@.map_values(|p: Vec<u16>| p@)),
            csi_fits(old(state).model(), params@.map_values(|p: Vec<u16>| p@), action),
            action == 'J' || action == 'K' || action == 'L' || action == 'M' || action == '@' || action == 'P'
                || action == 'S' || action == 'T' || action == 'X',
        ensures
            final(state).wf(),
            final(state).model() == csi_model(
                old(state).model(),
                params@.map_values(|p: Vec<u16>| p@),
                Seq::empty(),
                action,
            ),
    {
        proof {
            state.lemma_wf();
        }
        let n = count_value(params, 0);
        let x = state.cursor().x;
        let y = state.cursor().y;
        if action == 'J' {
            let mode = param_value(params, 0, 0);
            state.erase_display(mode);
        } else if action == 'K' {
            let mode = param_value(params, 0, 0);
            state.erase_line(mode);
        } else if action == 'L' {
            insert_lines_at_row(state.screen_mut(), y, n);
        } else if action == 'M' {
            delete_lines_at_row(state.screen_mut(), y, n);
        } else if action == '@' {
            let cols = state.cols();
            insert_chars_at_row(state.screen_mut(), y, x, cols, n);
        } else if action == 'P' {
            delete_chars_at_row(state.screen_mut(), y, x, n);
        } else if action == 'S' {
            state.scroll_up(n);
        } else if action == 'T' {
            scroll_down_times(state.screen_mut(), n);
        } else {
            blank_row_from(state.screen_mut(), y, x, x + n);
        }
    }

    /// The DEC private modes of the parameters, set or reset (see
    /// `dec_modes`).
    fn set_dec_modes(state: &mut TerminalState, params: &[Vec<u16>], on: bool)
        requires
            old(state).wf(),
            params_ok(params@.map_values(|p: Vec<u16>| p@)),
        ensures
            final(state).wf(),
            final(state).model() == dec_modes(old(state).model(), params@.map_values(|p: Vec<u16>| p@), 0, on),
    {
        let ghost ps = params@.map_values(|p: Vec<u16>| p@);
        let mut k: usize = 0;
        while k < params.len()
            invariant
                ps == params@.map_values(|p: Vec<u16>| p@),
                params_ok(ps),
                k <= params@.len(),
                state.wf(),
                dec_modes(old(state).model(), ps, 0, on) == dec_modes(state.model(), ps, k as int, on),
            decreases params@.len() - k,
        {
            assert(ps[k as int] == params@[k as int]@);
            let v = params[k][0];
            if v == 7 {
                state.set_mode(TerminalModes::AUTO_WRAP(), on);
            } else if v == 25 {
                state.set_cursor_visible(on);
            } else if v == 1049 {
                if on {
                    state.switch_to_alternate_screen();
                } else {
                    state.switch_to_main_screen();
                }
            }
            k = k + 1;
        }
    }

    /// Attributes, modes, cursor style, scroll region, saving and
    /// restoring the cursor: `m`, `h`, `l`, `q`, `r`, `s`, `u` (see
    /// `csi_model`).
    fn csi_setting(&mut self, state: &mut TerminalState, params: &[Vec<u16>], intermediates: &[u8], action: char)
        requires
            old(state).wf(),
            params_ok(params@.map_values(|p: Vec<u16>| p@)),
            action == 'm' || action == 'h' || action == 'l' || action == 'q' || action == 'r' || action == 's'
                || action == 'u',
        ensures
            final(state).wf(),
            final(state).model() == csi_model(
                old(state).model(),
                params@.map_values(|p: Vec<u16>| p@),
                intermediates@,
                action,
            ),
            *final(self) == *old(self),
    {
        if action == 'm' {
            self.handle_sgr(state, params);
        } else if action == 'h' || action == 'l' {
            if intermediates.len() > 0 && intermediates[0] == 0x3f {
                Self::set_dec_modes(state, params, action == 'h');
            }
        } else if action == 'q' {
            if intermediates.len() == 0 {
                let style = param_value(params, 0, 0);
                let shape = if style == 3 || style == 4 {
                    CursorShape::Underline
                } else if style == 5 || style == 6 {
                    CursorShape::Bar
                } else {
                    CursorShape::Block
                };
                state.set_cursor_shape(shape);
            }
        } else if action == 'r' {
            let top = count_value(params, 0) - 1;
            let b: usize = if params.len() > 1 {
                assert(params@.map_values(|p: Vec<u16>| p@)[1] == params@[1]@);
                params[1][0] as usize
            } else {
                state.rows()
            };
            let bottom = if b >= 1 { b - 1 } else { 0 };
            state.set_scroll_region(top, bottom);
        } else if action == 's' {
            state.save_cursor();
        } else {
            state.restore_cursor();
        }
    }

    /// Answers a device status request (see `dsr_reply`).
    fn device_status(&mut self, state: &TerminalState, params: &[Vec<u16>])
        requires
            params_ok(params@.map_values(|p: Vec<u16>| p@)),
            state.model().cursor.y < usize::MAX,
            state.model().cursor.x < usize::MAX,
        ensures
            final(self).dirty() == old(self).dirty(),
            (match dsr_reply(state.model(), params@.map_values(|p: Vec<u16>| p@)) {
                Some(r) => final(self).pending().len() == old(self).pending().len() + 1
                    && final(self).pending().drop_last() == old(self).pending()
                    && (final(self).pending().last() matches TerminalEvent::PtyWrite(b) && b@ == encode_utf8(r)),
                None => final(self).pending() == old(self).pending(),
            }),
    {
        let p = param_value(params, 0, 0);
        if p == 5 || p == 6 {
            let mut reply = String::new();
            if p == 5 {
                push_str(&mut reply, "\x1b[0n");
                proof {
                    reveal_strlit("\x1b[0n");
                }
            } else {
                let x = state.cursor().x;
                let y = state.cursor().y;
                push_str(&mut reply, "\x1b[");
                push_decimal(&mut reply, (y + 1) as u64);
                push_str(&mut reply, ";");
                push_decimal(&mut reply, (x + 1) as u64);
                push_str(&mut reply, "R");
                proof {
                    reveal_strlit("\x1b[");
                    reveal_strlit(";");
                    reveal_strlit("R");
                }
            }
            let bytes = reply.as_str().as_bytes_vec();
            assert(reply@ =~= dsr_reply(state.model(), params@.map_values(|p: Vec<u16>| p@))->0);
            self.events.push(TerminalEvent::PtyWrite(bytes));
            assert(self.events@.drop_last() =~= old(self).events@);
        }
    }

    /// Carries out a CSI sequence with final character `action` (see
    /// `csi_model`, and `dsr_reply` for the answer reported); the view
    /// needs drawing again. An ignored sequence does nothing.
    pub fn csi_dispatch(
        &mut self,
        state: &mut TerminalState,
        params: &[Vec<u16>],
        intermediates: &[u8],
        ignore: bool,
        action: char,
    )
        requires
            old(state).wf(),
            params_ok(params@.map_values(|p: Vec<u16>| p@)),
            !ignore ==> csi_fits(old(state).model(), params@.map_values(|p: Vec<u16>| p@), action),
        ensures
            final(state).wf(),
            ignore ==> final(state).model() == old(state).model() && *final(self) == *old(self),
            !ignore ==> final(state).model() == csi_model(
                old(state).model(),
                params@.map_values(|p: Vec<u16>| p@),
                intermediates@,
                action,
            ) && final(self).dirty(),
            !ignore ==> (match csi_reply(old(state).model(), params@.map_values(|p: Vec<u16>| p@), action) {
                Some(r) => final(self).pending().len() == old(self).pending().len() + 1
                    && final(self).pending().drop_last() == old(self).pending()
                    && (final(self).pending().last() matches TerminalEvent::PtyWrite(b) && b@ == encode_utf8(r)),
                None => final(self).pending() == old(self).pending(),
            }),
    {
        if ignore {
            return;
        }
        if action == 'A' || action == 'B' || action == 'C' || action == 'D' || action == 'E' || action == 'F'
            || action == 'G' || action == 'd' || action == 'H' || action == 'f' {
            Self::csi_cursor(state, params, action);
        } else if action == 'J' || action == 'K' || action == 'L' || action == 'M' || action == '@' || action
            == 'P' || action == 'S' || action == 'T' || action == 'X' {
            Self::csi_edit(state, params, action);
        } else if action == 'm' || action == 'h' || action == 'l' || action == 'q' || action == 'r' || action
            == 's' || action == 'u' {
            self.csi_setting(state, params, intermediates, action);
        } else if action == 'n' {
            self.device_status(state, params);
        }
        self.needs_wakeup = true;
    }

    /// Carries out an ESC sequence (see `esc_model`); the view needs
    /// drawing again. An ignored sequence does nothing.
    pub fn esc_dispatch(&mut self, state: &mut TerminalState, intermediates: &[u8], ignore: bool, byte: u8)
        requires
            old(state).wf(),
            !ignore && byte == 0x44 ==> old(state).model().new_line_fits(),
        ensures
            final(state).wf(),
            ignore ==> final(state).model() == old(state).model() && *final(self) == *old(self),
            !ignore ==> final(state).model() == esc_model(old(state).model(), byte) && final(self).dirty()
                && final(self).pending() == old(self).pending(),
    {
        if ignore {
            return;
        }
        proof {
            state.lemma_wf();
        }
        if byte == 0x44 {
            state.new_line(false);
        } else if byte == 0x4d {
            state.screen_mut().scroll_down();
        } else if byte == 0x63 {
            state.clear_screen();
        }
        self.needs_wakeup = true;
    }

    /// Carries out an OSC sequence (see `osc_effect`): a title is set and
    /// reported, a shell integration sequence reported.
    pub fn osc_dispatch(&mut self, state: &mut TerminalState, params: &[Vec<u8>], bell_terminated: bool)
        requires
            old(state).wf(),
            !osc_faults(params@.map_values(|p: Vec<u8>| p@)),
        ensures
            final(state).wf(),
            final(self).dirty() == old(self).dirty(),
            (match osc_effect(params@.map_values(|p: Vec<u8>| p@)) {
                OscEffect::Title(t) => final(state).model() == (TermModel { title: t, ..old(state).model() }),
                _ => final(state).model() == old(state).model(),
            }),
            (match osc_effect(params@.map_values(|p: Vec<u8>| p@)) {
                OscEffect::Nothing => final(self).pending() == old(self).pending(),
                e => final(self).pending().len() == old(self).pending().len() + 1
                    && final(self).pending().drop_last() == old(self).pending()
                    && osc_event_matches(final(self).pending().last(), e),
            }),
    {
        let ghost ps = params@.map_values(|p: Vec<u8>| p@);
        if params.len() == 0 {
            return;
        }
        proof {
            reveal_strlit("0");
            reveal_strlit("2");
            reveal_strlit("133");
            reveal_strlit("633");
            reveal_strlit("531");
            assert(ps[0] == params@[0]@);
        }
        let cmd = decode_lossy(params[0].as_slice());
        let c = cmd.as_str();
        if str_equal(c, "0") || str_equal(c, "2") {
            if params.len() > 1 {
                assert(ps[1] == params@[1]@);
                let title = decode_lossy(params[1].as_slice());
                let reported = decode_lossy(params[1].as_slice());
                state.set_title(title);
                self.events.push(TerminalEvent::TitleChanged(reported));
                assert(self.events@.drop_last() =~= old(self).events@);
            }
            return;
        }
        if params.len() < 2 {
            return;
        }
        assert(ps[1] == params@[1]@);
        let sub = decode_lossy(params[1].as_slice());
        match osc_raw(c, sub.as_str()) {
            Some(q) => {
                self.events.push(TerminalEvent::ShellIntegration(ShellIntegrationEvent::RawOscSequence(q)));
                assert(self.events@.drop_last() =~= old(self).events@);
            },
            None => {},
        }
    }

    /// Applies the SGR parameters to the attributes for new cells (see
    /// `sgr_from`).
    pub fn handle_sgr(&mut self, state: &mut TerminalState, params: &[Vec<u16>])
        requires
            params_ok(params@.map_values(|p: Vec<u16>| p@)),
        ensures
            final(state).model() == attrs_set(
                old(state).model(),
                sgr_from(old(state).model().attrs, params@.map_values(|p: Vec<u16>| p@), 0),
            ),
            final(state).screen_view() == old(state).screen_view(),
            final(state).alt_view() == old(state).alt_view(),
            old(state).wf() ==> final(state).wf(),
            *final(self) == *old(self),
    {
        let ghost ps = params@.map_values(|p: Vec<u16>| p@);
        let mut attrs = state.attrs().copy();
        let mut k: usize = 0;
        while k < params.len()
            invariant
                ps == params@.map_values(|p: Vec<u16>| p@),
                params_ok(ps),
                k <= params@.len(),
                sgr_from(old(state).model().attrs, ps, 0) == sgr_from(attrs, ps, k as int),
            decreases params@.len() - k,
        {
            assert(ps[k as int] == params@[k as int]@);
            let v = params[k][0];
            if v == 38 || v == 48 {
                let (c, next) = parse_color(params, k + 1);
                match c {
                    Some(col) => {
                        if v == 38 {
                            set_fg(&mut attrs, col);
                        } else {
                            set_bg(&mut attrs, col);
                        }
                    },
                    None => {},
                }
                k = next;
            } else {
                apply_sgr_code(&mut attrs, v);
                k = k + 1;
            }
        }
        state.set_attrs(attrs);
    }
}

/// Saving the cursor (CSI s) and restoring it (CSI u) brings back the
/// cursor as it was, whatever the parameters.
pub proof fn lemma_csi_save_restore(m: TermModel, ps1: Seq<Seq<u16>>, ps2: Seq<Seq<u16>>, i1: Seq<u8>, i2: Seq<u8>)
    ensures
        csi_model(csi_model(m, ps1, i1, 's'), ps2, i2, 'u') == m.cursor_saved(),
        csi_model(csi_model(m, ps1, i1, 's'), ps2, i2, 'u').cursor == m.cursor,
{
}

/// A cursor position (CSI H) inside the viewport puts the cursor exactly
/// there (rows and columns counted from 1).
pub proof fn lemma_cup_inside(m: TermModel, row: u16, col: u16)
    requires
        1 <= row <= m.screen.rows,
        1 <= col <= m.screen.cols,
    ensures
        csi_model(m, seq![seq![row], seq![col]], Seq::empty(), 'H').cursor.x == col - 1,
        csi_model(m, seq![seq![row], seq![col]], Seq::empty(), 'H').cursor.y == row - 1,
{
}

/// SGR 0 alone resets the attributes for new cells to the defaults.
pub proof fn lemma_sgr_reset(a: CellAttributes)
    ensures
        sgr_from(a, seq![seq![0u16]], 0) == CellAttributes::spec_default(),
{
    assert(sgr_from(CellAttributes::spec_default(), seq![seq![0u16]], 1) == CellAttributes::spec_default());
}

/// SGR 7 turns reverse video on and SGR 27 turns it off, whatever the
/// attributes were before; every other attribute bit and the colors stay.
/// Through CSI `m` the attributes for new cells get the same.
pub proof fn lemma_sgr_reverse(a: CellAttributes, m: TermModel, inter: Seq<u8>)
    ensures
        sgr_from(a, seq![seq![7u16]], 0).spec_reverse(),
        !sgr_from(a, seq![seq![27u16]], 0).spec_reverse(),
        with_bit_flag(sgr_from(a, seq![seq![7u16]], 0).attr_bits(), 8, false) == with_bit_flag(
            a.attr_bits(),
            8,
            false,
        ),
        with_bit_flag(sgr_from(a, seq![seq![27u16]], 0).attr_bits(), 8, false) == with_bit_flag(
            a.attr_bits(),
            8,
            false,
        ),
        sgr_from(a, seq![seq![7u16]], 0).fg() == a.fg() && sgr_from(a, seq![seq![7u16]], 0).bg() == a.bg(),
        sgr_from(a, seq![seq![27u16]], 0).fg() == a.fg() && sgr_from(a, seq![seq![27u16]], 0).bg() == a.bg(),
        csi_model(m, seq![seq![7u16]], inter, 'm').attrs.spec_reverse(),
        csi_model(m, seq![seq![7u16]], inter, 'm').cursor.attrs.spec_reverse(),
        !csi_model(m, seq![seq![27u16]], inter, 'm').attrs.spec_reverse(),
{
    let b = a.attr_bits();
    let on = seq![seq![7u16]];
    let off = seq![seq![27u16]];
    assert(sgr_from(a, on, 0) == sgr_from(sgr_code(a, 7), on, 1));
    assert(sgr_from(a, off, 0) == sgr_from(sgr_code(a, 27), off, 1));
    a.lemma_with(with_bit_flag(b, 8, true), a.fg());
    a.lemma_with(with_bit_flag(b, 8, false), a.fg());
    assert(bit_flag(with_bit_flag(b, 8, true), 8) && !bit_flag(with_bit_flag(b, 8, false), 8)
        && with_bit_flag(with_bit_flag(b, 8, true), 8, false) == with_bit_flag(b, 8, false)
        && with_bit_flag(with_bit_flag(b, 8, false), 8, false) == with_bit_flag(b, 8, false)) by (bit_vector);
    let ma = m.attrs;
    let mb = ma.attr_bits();
    assert(sgr_from(ma, on, 0) == sgr_from(sgr_code(ma, 7), on, 1));
    assert(sgr_from(ma, off, 0) == sgr_from(sgr_code(ma, 27), off, 1));
    ma.lemma_with(with_bit_flag(mb, 8, true), ma.fg());
    ma.lemma_with(with_bit_flag(mb, 8, false), ma.fg());
    assert(bit_flag(with_bit_flag(mb, 8, true), 8) && !bit_flag(with_bit_flag(mb, 8, false), 8)) by (bit_vector);
}

/// Reverse index (ESC M) scrolls the stored lines down by one when there
/// is scrollback: every line moves one place on, so the line shown at
/// viewport row `r` is shown at row `r + 1`, the newest scrollback line
/// comes into row 0, an empty line enters at the top of the scrollback and
/// the last line leaves. Without scrollback it changes nothing. The cursor
/// and the number of lines stay.
pub proof fn lemma_esc_reverse_index(m: TermModel)
    ensures
        ({
            let e = esc_model(m, 0x4d);
            let sb = m.screen.scrollback();
            let n = m.screen.lines.len();
            &&& e.cursor == m.cursor
            &&& e.screen.rows == m.screen.rows
            &&& e.screen.lines.len() == n
            &&& sb == 0 ==> e.screen == m.screen
            &&& sb > 0 ==> {
                &&& e.screen.lines[0] == blank_content()
                &&& forall|p: int| 1 <= p < n ==> #[trigger] e.screen.lines[p] == m.screen.lines[p - 1]
                &&& e.screen.scrollback() == sb
                &&& forall|r: int| 0 <= r && r + 1 < m.screen.rows ==> #[trigger] e.screen.lines[sb + r + 1]
                    == m.screen.lines[sb + r]
                &&& m.screen.rows > 0 ==> e.screen.lines[sb as int] == m.screen.lines[sb - 1]
            }
        }),
{
    let sb = m.screen.scrollback();
    let n = m.screen.lines.len();
    let e = esc_model(m, 0x4d);
    if sb > 0 {
        let l = seq![blank_content()] + m.screen.lines.drop_last();
        assert(e.screen.lines == l);
        assert(l.len() == n);
        assert(l[0] == blank_content());
        assert forall|p: int| 1 <= p < n implies #[trigger] e.screen.lines[p] == m.screen.lines[p - 1] by {
            assert(l[p] == m.screen.lines.drop_last()[p - 1]);
        }
        if m.screen.rows > 0 {
            assert(e.screen.lines[sb as int] == m.screen.lines[sb - 1]);
        }
        assert forall|r: int| 0 <= r && r + 1 < m.screen.rows implies #[trigger] e.screen.lines[sb + r + 1]
            == m.screen.lines[sb + r] by {
            assert(e.screen.lines[sb + r + 1] == m.screen.lines[sb + r + 1 - 1]);
        }
    }
}

/// Scrolling the stored lines down `k` times with scrollback moves every
/// line `k` places on, with empty lines entering at the top; without
/// scrollback nothing changes.
pub proof fn lemma_scrolled_down_times(s: ScreenModel, k: nat)
    ensures
        scrolled_down_times(s, k).lines.len() == s.lines.len(),
        scrolled_down_times(s, k).rows == s.rows,
        s.scrollback() == 0 ==> scrolled_down_times(s, k) == s,
        (s.scrollback() > 0 && k <= s.lines.len()) ==> scrolled_down_times(s, k).lines == Seq::new(
            k,
            |_i: int| blank_content(),
        ) + s.lines.take(s.lines.len() - k),
    decreases k,
{
    if k > 0 {
        lemma_scrolled_down_times(s, (k - 1) as nat);
        let t = scrolled_down_times(s, (k - 1) as nat);
        if s.scrollback() > 0 && k <= s.lines.len() {
            let n = s.lines.len();
            assert(t.lines == Seq::new((k - 1) as nat, |_i: int| blank_content()) + s.lines.take(n - (k - 1)));
            assert(t.scrollback() > 0);
            assert(seq![blank_content()] + t.lines.drop_last() =~= Seq::new(k, |_i: int| blank_content())
                + s.lines.take(n - k));
        }
    }
}

/// Scroll down (CSI `n` T) moves the stored lines `n` places on (at least
/// one; a count of 0 counts as 1) when there is scrollback: the line shown
/// at viewport row `r` is shown at row `r + n`. Without scrollback it
/// changes nothing. The cursor stays.
pub proof fn lemma_csi_scroll_down(m: TermModel, v: u16, inter: Seq<u8>)
    ensures
        ({
            let n: int = if v == 0 { 1 } else { v as int };
            let e = csi_model(m, seq![seq![v]], inter, 'T');
            let sb = m.screen.scrollback();
            &&& e.cursor == m.cursor
            &&& e.screen.lines.len() == m.screen.lines.len()
            &&& sb == 0 ==> e.screen == m.screen
            &&& (sb > 0 && n <= m.screen.lines.len()) ==> {
                &&& forall|p: int| n <= p < m.screen.lines.len() ==> #[trigger] e.screen.lines[p]
                    == m.screen.lines[p - n]
                &&& forall|p: int| 0 <= p < n ==> #[trigger] e.screen.lines[p] == blank_content()
                &&& forall|r: int| 0 <= r && r + n < m.screen.rows ==> #[trigger] e.screen.lines[sb + r + n]
                    == m.screen.lines[sb + r]
            }
        }),
{
    let n: int = if v == 0 { 1 } else { v as int };
    let ps = seq![seq![v]];
    assert(count_param(ps, 0) == n);
    lemma_scrolled_down_times(m.screen, n as nat);
    let e = csi_model(m, ps, inter, 'T');
    assert(e.screen == scrolled_down_times(m.screen, n as nat));
    if m.screen.scrollback() > 0 && n <= m.screen.lines.len() {
        let len = m.screen.lines.len();
        assert forall|p: int| n <= p < len implies #[trigger] e.screen.lines[p] == m.screen.lines[p - n] by {
            assert(e.screen.lines[p] == (Seq::new(n as nat, |_i: int| blank_content()) + m.screen.lines.take(
                len - n,
            ))[p]);
        }
        assert forall|r: int| 0 <= r && r + n < m.screen.rows implies #[trigger] e.screen.lines[m.screen.scrollback()
            + r + n] == m.screen.lines[m.screen.scrollback() + r] by {
            let p = m.screen.scrollback() + r + n;
            assert(e.screen.lines[p] == (Seq::new(n as nat, |_i: int| blank_content()) + m.screen.lines.take(
                len - n,
            ))[p]);
        }
    }
}

} // verus!
