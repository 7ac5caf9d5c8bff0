//! Row indices: stable (unchanged as scrollback is trimmed), physical
//! (position in the line store) and visible (relative to the viewport).
use vstd::prelude::*;

use crate::text::{decimal, push_decimal, push_str};

verus! {

/// A row index that stays valid while scrollback lines are dropped.
#[derive(Debug, Clone, Copy, PartialEq, Eq, PartialOrd, Ord, Hash, Structural)]
pub struct StableRowIndex(pub usize);

impl StableRowIndex {
    /// The index `index`.
    pub fn new(index: usize) -> (r: StableRowIndex)
        ensures
            r.0 == index,
    {
        StableRowIndex(index)
    }

    /// The index value.
    pub fn get(self) -> (v: usize)
        ensures
            v == self.0,
    {
        self.0
    }

    /// The following index.
    pub fn next(self) -> (r: StableRowIndex)
        requires
            self.0 < usize::MAX,
        ensures
            r.0 == self.0 + 1,
    {
        StableRowIndex(self.0 + 1)
    }

    /// The preceding index, if the index is above 0.
    pub fn prev(self) -> (r: Option<StableRowIndex>)
        ensures
            r == (if self.0 > 0 { Some(StableRowIndex((self.0 - 1) as usize)) } else { None }),
    {
        if self.0 > 0 {
            Some(StableRowIndex(self.0 - 1))
        } else {
            None
        }
    }

    /// The index moved by `delta`, computed as `isize` and taken back as
    /// `usize`; the sum may not overflow.
    pub fn offset(self, delta: isize) -> (r: StableRowIndex)
        requires
            isize::MIN <= (self.0 as isize) + delta <= isize::MAX,
        ensures
            r.0 == ((self.0 as isize) + delta) as isize as usize,
    {
        StableRowIndex((self.0 as isize + delta) as usize)
    }

    /// The index moved by `delta`, or `None` if the result (computed as
    /// `isize`) is negative; the sum may not overflow.
    pub fn checked_offset(self, delta: isize) -> (r: Option<StableRowIndex>)
        requires
            isize::MIN <= (self.0 as isize) + delta <= isize::MAX,
        ensures
            r == (if (self.0 as isize) + delta >= 0 {
                Some(StableRowIndex(((self.0 as isize) + delta) as isize as usize))
            } else {
                None
            }),
    {
        let result = self.0 as isize + delta;
        if result >= 0 {
            Some(StableRowIndex(result as usize))
        } else {
            None
        }
    }

    /// The text `StableRowIndex(n)`.
    pub fn to_display_string(&self) -> (s: String)
        ensures
            s@ == "StableRowIndex("@ + decimal(self.0 as nat) + ")"@,
    {
        let mut s = String::new();
        push_str(&mut s, "StableRowIndex(");
        push_decimal(&mut s, self.0 as u64);
        push_str(&mut s, ")");
        assert(s@ =~= "StableRowIndex("@ + decimal(self.0 as nat) + ")"@);
        s
    }
}

/// Moving an index forward and back by the same amount gives it back.
pub proof fn lemma_offset_round_trip(i: usize, delta: isize)
    requires
        0 <= i <= isize::MAX,
        0 <= i + delta <= isize::MAX,
    ensures
        ((((i as isize) + delta) as isize as usize) as isize - delta) as isize as usize == i,
{
}

impl From<usize> for StableRowIndex {
    fn from(index: usize) -> (r: StableRowIndex)
        ensures
            r.0 == index,
    {
        StableRowIndex(index)
    }
}

impl vstd::std_specs::convert::FromSpecImpl<usize> for StableRowIndex {
    open spec fn obeys_from_spec() -> bool {
        true
    }

    open spec fn from_spec(index: usize) -> StableRowIndex {
        StableRowIndex(index)
    }
}

impl From<StableRowIndex> for usize {
    fn from(index: StableRowIndex) -> (r: usize)
        ensures
            r == index.0,
    {
        index.0
    }
}

impl vstd::std_specs::convert::FromSpecImpl<StableRowIndex> for usize {
    open spec fn obeys_from_spec() -> bool {
        true
    }

    open spec fn from_spec(index: StableRowIndex) -> usize {
        index.0
    }
}

/// A position in the line store of a screen.
#[derive(Debug, Clone, Copy, PartialEq, Eq, PartialOrd, Ord, Hash, Structural)]
pub struct PhysRowIndex(pub usize);

impl PhysRowIndex {
    /// The index `index`.
    pub fn new(index: usize) -> (r: PhysRowIndex)
        ensures
            r.0 == index,
    {
        PhysRowIndex(index)
    }

    /// The index value.
    pub fn get(self) -> (v: usize)
        ensures
            v == self.0,
    {
        self.0
    }
}

impl From<usize> for PhysRowIndex {
    fn from(index: usize) -> (r: PhysRowIndex)
        ensures
            r.0 == index,
    {
        PhysRowIndex(index)
    }
}

impl vstd::std_specs::convert::FromSpecImpl<usize> for PhysRowIndex {
    open spec fn obeys_from_spec() -> bool {
        true
    }

    open spec fn from_spec(index: usize) -> PhysRowIndex {
        PhysRowIndex(index)
    }
}

impl From<PhysRowIndex> for usize {
    fn from(index: PhysRowIndex) -> (r: usize)
        ensures
            r == index.0,
    {
        index.0
    }
}

impl vstd::std_specs::convert::FromSpecImpl<PhysRowIndex> for usize {
    open spec fn obeys_from_spec() -> bool {
        true
    }

    open spec fn from_spec(index: PhysRowIndex) -> usize {
        index.0
    }
}

/// A row relative to the top of the viewport; negative rows are scrollback.
#[derive(Debug, Clone, Copy, PartialEq, Eq, PartialOrd, Ord, Hash, Structural)]
pub struct VisibleRowIndex(pub isize);

impl VisibleRowIndex {
    /// The index `index`.
    pub fn new(index: isize) -> (r: VisibleRowIndex)
        ensures
            r.0 == index,
    {
        VisibleRowIndex(index)
    }

    /// The index value.
    pub fn get(self) -> (v: isize)
        ensures
            v == self.0,
    {
        self.0
    }

    /// Whether the row lies in a viewport of `rows` rows (`rows` taken as `isize`).
    pub fn is_visible(self, rows: usize) -> (r: bool)
        ensures
            r == (self.0 >= 0 && self.0 < (rows as isize)),
    {
        self.0 >= 0 && self.0 < rows as isize
    }
}

impl From<isize> for VisibleRowIndex {
    fn from(index: isize) -> (r: VisibleRowIndex)
        ensures
            r.0 == index,
    {
        VisibleRowIndex(index)
    }
}

impl vstd::std_specs::convert::FromSpecImpl<isize> for VisibleRowIndex {
    open spec fn obeys_from_spec() -> bool {
        true
    }

    open spec fn from_spec(index: isize) -> VisibleRowIndex {
        VisibleRowIndex(index)
    }
}

impl From<VisibleRowIndex> for isize {
    fn from(index: VisibleRowIndex) -> (r: isize)
        ensures
            r == index.0,
    {
        index.0
    }
}

impl vstd::std_specs::convert::FromSpecImpl<VisibleRowIndex> for isize {
    open spec fn obeys_from_spec() -> bool {
        true
    }

    open spec fn from_spec(index: VisibleRowIndex) -> isize {
        index.0
    }
}

} // verus!
