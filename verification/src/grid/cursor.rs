//! The cursor: position in the viewport, shape, visibility, blinking and
//! the attributes applied to newly written cells.
use vstd::prelude::*;

use super::attributes::CellAttributes;

verus! {

/// Shape of the cursor.
#[derive(Debug, Clone, Copy, PartialEq, Eq, Structural)]
pub enum CursorShape {
    /// Block (the default).
    Block,
    /// Underline.
    Underline,
    /// Vertical bar (I-beam).
    Bar,
}

impl Default for CursorShape {
    fn default() -> (s: CursorShape)
        ensures
            s == CursorShape::Block,
    {
        CursorShape::Block
    }
}

/// `a` capped at `limit - 1` (at 0 when `limit` is 0).
pub open spec fn cap_below(a: int, limit: int) -> int {
    let top = if limit > 0 { limit - 1 } else { 0 };
    if a <= top {
        a
    } else {
        top
    }
}

/// The cursor.
#[derive(Debug, Clone, PartialEq, Eq)]
pub struct Cursor {
    /// Column.
    pub x: usize,
    /// Row, relative to the viewport.
    pub y: usize,
    /// Shape.
    pub shape: CursorShape,
    /// Whether it is shown.
    pub visible: bool,
    /// Whether it blinks.
    pub blink: bool,
    /// Attributes for newly written cells.
    pub attrs: CellAttributes,
}

impl Cursor {
    /// The default cursor: at the origin, block, visible, blinking, default attributes.
    pub open spec fn spec_default() -> Cursor {
        Cursor {
            x: 0,
            y: 0,
            shape: CursorShape::Block,
            visible: true,
            blink: true,
            attrs: CellAttributes::spec_default(),
        }
    }

    /// A copy of this cursor.
    pub fn copy(&self) -> (c: Cursor)
        ensures
            c == *self,
    {
        Cursor {
            x: self.x,
            y: self.y,
            shape: self.shape,
            visible: self.visible,
            blink: self.blink,
            attrs: self.attrs.copy(),
        }
    }
}

impl Default for Cursor {
    fn default() -> (c: Cursor)
        ensures
            c == Cursor::spec_default(),
    {
        Cursor {
            x: 0,
            y: 0,
            shape: CursorShape::Block,
            visible: true,
            blink: true,
            attrs: CellAttributes::default(),
        }
    }
}

impl Cursor {
    /// The default cursor.
    pub fn new() -> (c: Cursor)
        ensures
            c == Cursor::spec_default(),
    {
        Cursor::default()
    }

    /// Moves to column `x`, row `y`.
    pub fn set_position(&mut self, x: usize, y: usize)
        ensures
            *final(self) == (Cursor { x, y, ..*old(self) }),
    {
        self.x = x;
        self.y = y;
    }

    /// The position as (column, row).
    pub fn position(&self) -> (p: (usize, usize))
        ensures
            p == (self.x, self.y),
    {
        (self.x, self.y)
    }

    /// Sets the shape.
    pub fn set_shape(&mut self, shape: CursorShape)
        ensures
            *final(self) == (Cursor { shape, ..*old(self) }),
    {
        self.shape = shape;
    }

    /// Shows or hides the cursor.
    pub fn set_visible(&mut self, visible: bool)
        ensures
            *final(self) == (Cursor { visible, ..*old(self) }),
    {
        self.visible = visible;
    }

    /// Turns blinking on or off.
    pub fn set_blink(&mut self, blink: bool)
        ensures
            *final(self) == (Cursor { blink, ..*old(self) }),
    {
        self.blink = blink;
    }

    /// Moves right by `cols`, stopping at the last of `max_cols` columns.
    pub fn move_right(&mut self, cols: usize, max_cols: usize)
        requires
            old(self).x + cols <= usize::MAX,
        ensures
            *final(self) == (Cursor { x: cap_below(old(self).x + cols, max_cols as int) as usize, ..*old(self) }),
    {
        let top = max_cols.saturating_sub(1);
        let nx = self.x + cols;
        self.x = if nx <= top { nx } else { top };
    }

    /// Moves left by `cols`, stopping at column 0.
    pub fn move_left(&mut self, cols: usize)
        ensures
            *final(self) == (Cursor {
                x: if old(self).x >= cols { (old(self).x - cols) as usize } else { 0 },
                ..*old(self)
            }),
    {
        self.x = self.x.saturating_sub(cols);
    }

    /// Moves down by `rows`, stopping at the last of `max_rows` rows.
    pub fn move_down(&mut self, rows: usize, max_rows: usize)
        requires
            old(self).y + rows <= usize::MAX,
        ensures
            *final(self) == (Cursor { y: cap_below(old(self).y + rows, max_rows as int) as usize, ..*old(self) }),
    {
        let top = max_rows.saturating_sub(1);
        let ny = self.y + rows;
        self.y = if ny <= top { ny } else { top };
    }

    /// Moves up by `rows`, stopping at row 0.
    pub fn move_up(&mut self, rows: usize)
        ensures
            *final(self) == (Cursor {
                y: if old(self).y >= rows { (old(self).y - rows) as usize } else { 0 },
                ..*old(self)
            }),
    {
        self.y = self.y.saturating_sub(rows);
    }

    /// Moves to column 0.
    pub fn carriage_return(&mut self)
        ensures
            *final(self) == (Cursor { x: 0, ..*old(self) }),
    {
        self.x = 0;
    }

    /// Moves down one row unless already on the last of `max_rows` rows.
    pub fn line_feed(&mut self, max_rows: usize)
        ensures
            *final(self) == (Cursor {
                y: if old(self).y + 1 < max_rows { (old(self).y + 1) as usize } else { old(self).y },
                ..*old(self)
            }),
    {
        if self.y < usize::MAX && self.y + 1 < max_rows {
            self.y = self.y + 1;
        }
    }

    /// Moves to the origin.
    pub fn home(&mut self)
        ensures
            *final(self) == (Cursor { x: 0, y: 0, ..*old(self) }),
    {
        self.x = 0;
        self.y = 0;
    }

    /// Caps the position to a viewport of `max_cols` columns and `max_rows` rows.
    pub fn clamp(&mut self, max_cols: usize, max_rows: usize)
        ensures
            *final(self) == (Cursor {
                x: cap_below(old(self).x as int, max_cols as int) as usize,
                y: cap_below(old(self).y as int, max_rows as int) as usize,
                ..*old(self)
            }),
    {
        let top_x = max_cols.saturating_sub(1);
        let top_y = max_rows.saturating_sub(1);
        if self.x > top_x {
            self.x = top_x;
        }
        if self.y > top_y {
            self.y = top_y;
        }
    }

    /// Back to the default cursor.
    pub fn reset(&mut self)
        ensures
            *final(self) == Cursor::spec_default(),
    {
        *self = Cursor::default();
    }

    /// The attributes for new cells.
    pub fn attrs(&self) -> (a: &CellAttributes)
        ensures
            *a == self.attrs,
    {
        &self.attrs
    }

    /// The attributes for new cells, for update in place.
    pub fn attrs_mut(&mut self) -> (a: &mut CellAttributes)
        ensures
            *a == old(self).attrs,
            *final(self) == (Cursor { attrs: *final(a), ..*old(self) }),
    {
        &mut self.attrs
    }

    /// Sets the attributes for new cells.
    pub fn set_attrs(&mut self, attrs: CellAttributes)
        ensures
            *final(self) == (Cursor { attrs, ..*old(self) }),
    {
        self.attrs = attrs;
    }
}

/// After `clamp` with a non-empty viewport, the cursor lies inside it.
pub proof fn lemma_clamp_in_bounds(x: int, y: int, max_cols: int, max_rows: int)
    requires
        x >= 0,
        y >= 0,
        max_cols > 0,
        max_rows > 0,
    ensures
        0 <= cap_below(x, max_cols) < max_cols,
        0 <= cap_below(y, max_rows) < max_rows,
        x < max_cols ==> cap_below(x, max_cols) == x,
        y < max_rows ==> cap_below(y, max_rows) == y,
{
}

} // verus!
