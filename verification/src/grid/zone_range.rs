//! Semantic zones of a line: a half-open column range marked as prompt,
//! input or output (shell integration).
use vstd::prelude::*;

use super::cell_attrs::SemanticType;

verus! {

/// The columns `start..end` of a line, with a semantic type.
#[derive(Debug, Clone, Copy, PartialEq, Eq, Structural)]
pub struct ZoneRange {
    /// First column (inclusive).
    pub start: usize,
    /// End column (exclusive).
    pub end: usize,
    /// What the columns hold.
    pub semantic_type: SemanticType,
}

impl ZoneRange {
    /// The range is well formed: it does not end before it starts.
    pub open spec fn wf(&self) -> bool {
        self.start <= self.end
    }

    /// Column `pos` lies in the range.
    pub open spec fn spec_contains(&self, pos: int) -> bool {
        self.start <= pos < self.end
    }

    /// The two ranges share a column.
    pub open spec fn spec_overlaps(&self, other: ZoneRange) -> bool {
        self.start < other.end && other.start < self.end
    }

    /// One range ends where the other starts.
    pub open spec fn spec_adjacent(&self, other: ZoneRange) -> bool {
        self.end == other.start || other.end == self.start
    }

    /// Adjacent ranges of the same type.
    pub open spec fn spec_can_merge(&self, other: ZoneRange) -> bool {
        self.semantic_type == other.semantic_type && self.spec_adjacent(other)
    }

    /// The range spanning both, with this range's type.
    pub open spec fn spec_merge(&self, other: ZoneRange) -> ZoneRange {
        ZoneRange {
            start: if self.start <= other.start { self.start } else { other.start },
            end: if self.end >= other.end { self.end } else { other.end },
            semantic_type: self.semantic_type,
        }
    }

    /// The common columns, with this range's type, when the ranges overlap.
    pub open spec fn spec_intersection(&self, other: ZoneRange) -> Option<ZoneRange> {
        if self.spec_overlaps(other) {
            Some(
                ZoneRange {
                    start: if self.start >= other.start { self.start } else { other.start },
                    end: if self.end <= other.end { self.end } else { other.end },
                    semantic_type: self.semantic_type,
                },
            )
        } else {
            None
        }
    }

    /// A range; `start` may not exceed `end`.
    pub fn new(start: usize, end: usize, semantic_type: SemanticType) -> (z: ZoneRange)
        requires
            start <= end,
        ensures
            z == (ZoneRange { start, end, semantic_type }),
    {
        ZoneRange { start, end, semantic_type }
    }

    /// A prompt range.
    pub fn prompt(start: usize, end: usize) -> (z: ZoneRange)
        requires
            start <= end,
        ensures
            z == (ZoneRange { start, end, semantic_type: SemanticType::Prompt }),
    {
        ZoneRange::new(start, end, SemanticType::Prompt)
    }

    /// An input range.
    pub fn input(start: usize, end: usize) -> (z: ZoneRange)
        requires
            start <= end,
        ensures
            z == (ZoneRange { start, end, semantic_type: SemanticType::Input }),
    {
        ZoneRange::new(start, end, SemanticType::Input)
    }

    /// An output range.
    pub fn output(start: usize, end: usize) -> (z: ZoneRange)
        requires
            start <= end,
        ensures
            z == (ZoneRange { start, end, semantic_type: SemanticType::Output }),
    {
        ZoneRange::new(start, end, SemanticType::Output)
    }

    /// The number of columns.
    pub fn len(&self) -> (n: usize)
        requires
            self.wf(),
        ensures
            n == self.end - self.start,
    {
        self.end - self.start
    }

    /// Whether the range is empty.
    pub fn is_empty(&self) -> (r: bool)
        ensures
            r == (self.start == self.end),
    {
        self.start == self.end
    }

    /// Whether column `pos` lies in the range.
    pub fn contains(&self, pos: usize) -> (r: bool)
        ensures
            r == self.spec_contains(pos as int),
    {
        pos >= self.start && pos < self.end
    }

    /// Whether the ranges share a column.
    pub fn overlaps(&self, other: &ZoneRange) -> (r: bool)
        ensures
            r == self.spec_overlaps(*other),
    {
        self.start < other.end && other.start < self.end
    }

    /// Whether one range ends where the other starts.
    pub fn adjacent_to(&self, other: &ZoneRange) -> (r: bool)
        ensures
            r == self.spec_adjacent(*other),
    {
        self.end == other.start || other.end == self.start
    }

    /// Whether the ranges are adjacent and of the same type.
    pub fn can_merge(&self, other: &ZoneRange) -> (r: bool)
        ensures
            r == self.spec_can_merge(*other),
    {
        self.semantic_type == other.semantic_type && self.adjacent_to(other)
    }

    /// The range spanning both; they must be adjacent and of the same type.
    pub fn merge(&self, other: &ZoneRange) -> (z: ZoneRange)
        requires
            self.spec_can_merge(*other),
        ensures
            z == self.spec_merge(*other),
            z.wf(),
    {
        let start = if self.start <= other.start { self.start } else { other.start };
        let end = if self.end >= other.end { self.end } else { other.end };
        ZoneRange::new(start, end, self.semantic_type)
    }

    /// The common columns, with this range's type; `None` when they do not overlap.
    pub fn intersection(&self, other: &ZoneRange) -> (z: Option<ZoneRange>)
        requires
            self.wf(),
            other.wf(),
        ensures
            z == self.spec_intersection(*other),
            z matches Some(i) ==> i.wf(),
    {
        if !self.overlaps(other) {
            return None;
        }
        let start = if self.start >= other.start { self.start } else { other.start };
        let end = if self.end <= other.end { self.end } else { other.end };
        Some(ZoneRange::new(start, end, self.semantic_type))
    }

    /// Whether every column of `other` lies in this range.
    pub fn contains_range(&self, other: &ZoneRange) -> (r: bool)
        ensures
            r == (self.start <= other.start && self.end >= other.end),
    {
        self.start <= other.start && self.end >= other.end
    }

    /// The range moved by `offset` columns. Both ends are taken as `isize`,
    /// moved, and taken back as `usize`; the sums may not overflow and the
    /// moved range may not end before it starts.
    pub fn offset(&self, offset: isize) -> (z: ZoneRange)
        requires
            isize::MIN <= (self.start as isize) + offset <= isize::MAX,
            isize::MIN <= (self.end as isize) + offset <= isize::MAX,
            (((self.start as isize) + offset) as isize as usize) <= (((self.end as isize) + offset) as isize as usize),
        ensures
            z.start == ((self.start as isize) + offset) as isize as usize,
            z.end == ((self.end as isize) + offset) as isize as usize,
            z.semantic_type == self.semantic_type,
    {
        let start = (self.start as isize + offset) as usize;
        let end = (self.end as isize + offset) as usize;
        ZoneRange::new(start, end, self.semantic_type)
    }

    /// The range cut to `min..max`; `None` when nothing is left.
    pub fn clamp(&self, min: usize, max: usize) -> (z: Option<ZoneRange>)
        ensures
            ({
                let s = if self.start >= min { self.start } else { min };
                let s = if s <= max { s } else { max };
                let e = if self.end >= min { self.end } else { min };
                let e = if e <= max { e } else { max };
                z == if s >= e { None } else { Some(ZoneRange { start: s, end: e, semantic_type: self.semantic_type }) }
            }),
    {
        let start = if self.start >= min { self.start } else { min };
        let start = if start <= max { start } else { max };
        let end = if self.end >= min { self.end } else { min };
        let end = if end <= max { end } else { max };
        if start >= end {
            None
        } else {
            Some(ZoneRange::new(start, end, self.semantic_type))
        }
    }
}

/// A column lies in the intersection of two ranges exactly when it lies in both.
pub proof fn lemma_intersection_contains(a: ZoneRange, b: ZoneRange, pos: int)
    ensures
        a.spec_intersection(b) matches Some(i) ==> (i.spec_contains(pos) <==> (a.spec_contains(pos)
            && b.spec_contains(pos))),
        a.spec_intersection(b) is None ==> !(a.spec_contains(pos) && b.spec_contains(pos)),
{
}

/// Intersection covers the same columns whichever range comes first.
pub proof fn lemma_intersection_symmetric(a: ZoneRange, b: ZoneRange)
    ensures
        a.spec_intersection(b) is Some == b.spec_intersection(a) is Some,
        a.spec_intersection(b) matches Some(i) ==> (b.spec_intersection(a) matches Some(j) && i.start
            == j.start && i.end == j.end),
{
}

/// Merging two mergeable ranges covers exactly the columns of the two.
pub proof fn lemma_merge_contains(a: ZoneRange, b: ZoneRange, pos: int)
    requires
        a.wf(),
        b.wf(),
        a.spec_can_merge(b),
    ensures
        a.spec_merge(b).spec_contains(pos) <==> (a.spec_contains(pos) || b.spec_contains(pos)),
        a.spec_merge(b).end - a.spec_merge(b).start == (a.end - a.start) + (b.end - b.start),
{
}

} // verus!
