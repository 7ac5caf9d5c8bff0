//! A terminal line: its cells (vector or clustered storage), semantic
//! zones, a sequence number bumped on every change, and line flags.
use vstd::prelude::*;

use super::cell::{Cell, CellModel};
use super::cell_attrs::SemanticType;
use super::clusterline::{cell_models, concat_texts, vec_capacity, ClusteredLine};
use super::linebits::{with_flags, LineBits};
use super::storage::{resized, CellStorage};
use super::zone_range::ZoneRange;
use crate::text::{all_white_space, contains_seq, is_white_space_only, push_str, str_contains};

verus! {

/// The sequence number after one change: one more, wrapping at the top.
pub open spec fn next_seqno(s: u64) -> u64 {
    if s == u64::MAX {
        0
    } else {
        (s + 1) as u64
    }
}

/// The sequence number after `k` changes.
pub open spec fn seqno_after(s: u64, k: nat) -> u64
    decreases k,
{
    if k == 0 {
        s
    } else {
        next_seqno(seqno_after(s, (k - 1) as nat))
    }
}

/// A terminal line.
#[derive(Debug, Clone, PartialEq, Eq)]
pub struct Line {
    cells: CellStorage,
    zones: Vec<ZoneRange>,
    seqno: u64,
    bits: LineBits,
}

impl Line {
    /// The cell storage.
    pub closed spec fn storage(&self) -> CellStorage {
        self.cells
    }

    /// The cells.
    pub open spec fn cells_view(&self) -> Seq<CellModel> {
        self.storage().cells()
    }

    /// The length `len` reports (see `CellStorage::spec_len`).
    pub open spec fn spec_len(&self) -> nat {
        self.storage().spec_len()
    }

    /// The semantic zones.
    pub closed spec fn zones_view(&self) -> Seq<ZoneRange> {
        self.zones@
    }

    /// The sequence number.
    pub closed spec fn seqno_view(&self) -> u64 {
        self.seqno
    }

    /// The line flags.
    pub closed spec fn bits_view(&self) -> u16 {
        self.bits@
    }

    /// Internal consistency of the storage.
    pub open spec fn wf(&self) -> bool {
        self.storage().wf()
    }

    /// `self` and `other` differ at most in their cells.
    pub open spec fn same_but_cells(&self, other: &Line) -> bool {
        &&& self.zones_view() == other.zones_view()
        &&& self.bits_view() == other.bits_view()
    }

    /// The line holds vector storage of these cells.
    pub open spec fn holds_vec(&self, cells: Seq<CellModel>) -> bool {
        &&& self.storage() is V
        &&& self.cells_view() == cells
        &&& self.spec_len() == cells.len()
    }

    /// With vector storage the length is the number of cells.
    pub proof fn lemma_vec_len(&self)
        requires
            self.storage() is V,
        ensures
            self.spec_len() == self.cells_view().len(),
    {
    }

    /// A deep copy of this line.
    pub fn copy(&self) -> (l: Line)
        requires
            self.wf(),
        ensures
            l.wf(),
            l.holds_vec(self.cells_view()),
            l.zones_view() == self.zones_view(),
            l.bits_view() == self.bits_view(),
            l.seqno_view() == self.seqno_view(),
    {
        let v = self.cells.to_vec();
        proof {
            if self.cells is C {
                assert(cell_models(v@).len() == self.cells_view().len());
            }
        }
        Line { cells: CellStorage::V(v), zones: self.zones.clone(), seqno: self.seqno, bits: self.bits }
    }
}

impl Line {
    /// A copy of this line that keeps its kind of storage.
    pub fn duplicate(&self) -> (l: Line)
        ensures
            l.wf() == self.wf(),
            l.cells_view() == self.cells_view(),
            l.spec_len() == self.spec_len(),
            (l.storage() is V) == (self.storage() is V),
            l.zones_view() == self.zones_view(),
            l.bits_view() == self.bits_view(),
            l.seqno_view() == self.seqno_view(),
    {
        Line { cells: self.cells.duplicate(), zones: self.zones.clone(), seqno: self.seqno, bits: self.bits }
    }
}

/// Zones merged left to right, starting with `cur`, after the finished `done`.
pub open spec fn consolidate_from(done: Seq<ZoneRange>, cur: ZoneRange, rest: Seq<ZoneRange>) -> Seq<ZoneRange>
    decreases rest.len(),
{
    if rest.len() == 0 {
        done.push(cur)
    } else if cur.spec_can_merge(rest[0]) {
        consolidate_from(done, cur.spec_merge(rest[0]), rest.drop_first())
    } else {
        consolidate_from(done.push(cur), rest[0], rest.drop_first())
    }
}

/// Zones with every run of adjacent zones of the same type merged, left to right.
pub open spec fn consolidated(zones: Seq<ZoneRange>) -> Seq<ZoneRange> {
    if zones.len() <= 1 {
        zones
    } else {
        consolidate_from(Seq::empty(), zones[0], zones.drop_first())
    }
}

impl Line {
    /// An empty line.
    pub fn new() -> (l: Line)
        ensures
            l.wf(),
            l.holds_vec(Seq::empty()),
            l.zones_view() == Seq::<ZoneRange>::empty(),
            l.seqno_view() == 0,
            l.bits_view() == 0,
    {
        let l = Line { cells: CellStorage::default(), zones: Vec::new(), seqno: 0, bits: LineBits::default() };
        assert(cell_models(l.cells->V_0@) =~= Seq::<CellModel>::empty());
        l
    }

    /// An empty line with room reserved for `len` cells (it holds no cells).
    pub fn with_capacity(len: usize) -> (l: Line)
        ensures
            l.wf(),
            l.holds_vec(Seq::empty()),
            l.zones_view() == Seq::<ZoneRange>::empty(),
            l.seqno_view() == 0,
            l.bits_view() == 0,
    {
        let l = Line {
            cells: CellStorage::new_vec_with_capacity(len),
            zones: Vec::new(),
            seqno: 0,
            bits: LineBits::default(),
        };
        assert(cell_models(l.cells->V_0@) =~= Seq::<CellModel>::empty());
        l
    }

    /// A line of the given cells.
    pub fn from_cells(cells: Vec<Cell>) -> (l: Line)
        ensures
            l.wf(),
            l.holds_vec(cell_models(cells@)),
            l.zones_view() == Seq::<ZoneRange>::empty(),
            l.seqno_view() == 0,
            l.bits_view() == 0,
    {
        Line { cells: CellStorage::new_vec(cells), zones: Vec::new(), seqno: 0, bits: LineBits::default() }
    }

    /// A line holding a clustered line.
    pub fn from_clustered(clustered: ClusteredLine) -> (l: Line)
        ensures
            l.storage() == CellStorage::C(clustered),
            l.zones_view() == Seq::<ZoneRange>::empty(),
            l.seqno_view() == 0,
            l.bits_view() == 0,
    {
        Line {
            cells: CellStorage::new_clustered(clustered),
            zones: Vec::new(),
            seqno: 0,
            bits: LineBits::default(),
        }
    }

    /// The length (cells of vector storage, columns of clustered storage).
    pub fn len(&self) -> (n: usize)
        ensures
            n == self.spec_len(),
    {
        self.cells.len()
    }

    /// Whether the length is 0.
    pub fn is_empty(&self) -> (r: bool)
        ensures
            r == (self.spec_len() == 0),
    {
        self.cells.is_empty()
    }

    /// The cell at `index` (`None` past the end). A clustered line is read
    /// as the cells it converts to.
    pub fn get(&self, index: usize) -> (r: Option<Cell>)
        requires
            self.wf(),
        ensures
            r is Some <==> index < self.cells_view().len(),
            r matches Some(c) ==> c@ == self.cells_view()[index as int],
    {
        match &self.cells {
            CellStorage::V(v) => {
                if index < v.len() {
                    Some(v[index].clone_cell())
                } else {
                    None
                }
            },
            CellStorage::C(_) => {
                let mut cells = self.cells.to_vec();
                if index < cells.len() {
                    Some(cells.remove(index))
                } else {
                    None
                }
            },
        }
    }

    /// Bumps the sequence number.
    pub fn increment_seqno(&mut self)
        ensures
            final(self).seqno_view() == next_seqno(old(self).seqno_view()),
            final(self).storage() == old(self).storage(),
            final(self).zones_view() == old(self).zones_view(),
            final(self).bits_view() == old(self).bits_view(),
    {
        self.seqno = if self.seqno == u64::MAX { 0 } else { self.seqno + 1 };
    }

    /// The cell at `index`, for update in place. The storage becomes vector
    /// storage and the sequence number is bumped, even past the end.
    pub fn get_mut(&mut self, index: usize) -> (r: Option<&mut Cell>)
        requires
            old(self).wf(),
        ensures
            final(self).wf(),
            final(self).storage() is V,
            final(self).seqno_view() == next_seqno(old(self).seqno_view()),
            final(self).same_but_cells(old(self)),
            index < old(self).cells_view().len() ==> (r matches Some(c) && c@ == old(self).cells_view()[index as int]
                && final(self).cells_view() == old(self).cells_view().update(index as int, final(c)@)),
            index >= old(self).cells_view().len() ==> (r is None && final(self).cells_view()
                == old(self).cells_view()),
    {
        self.cells.ensure_vec();
        self.increment_seqno();
        self.cells.get_mut(index)
    }

    /// Replaces the cell at `index` (turning the storage into vector storage);
    /// bumps the sequence number when `index` is inside the line.
    pub fn set_cell(&mut self, index: usize, cell: Cell)
        requires
            old(self).wf(),
        ensures
            final(self).wf(),
            final(self).storage() is V,
            final(self).same_but_cells(old(self)),
            index < old(self).cells_view().len() ==> (final(self).cells_view() == old(self).cells_view().update(
                index as int,
                cell@,
            ) && final(self).seqno_view() == next_seqno(old(self).seqno_view())),
            index >= old(self).cells_view().len() ==> (final(self).cells_view() == old(self).cells_view()
                && final(self).seqno_view() == old(self).seqno_view()),
    {
        self.cells.ensure_vec();
        if index < self.cells.len() {
            let ghost mid = self.cells;
            if let CellStorage::V(v) = &mut self.cells {
                v.set(index, cell);
            }
            assert(cell_models(self.cells->V_0@) =~= mid.cells().update(index as int, cell@));
            self.increment_seqno();
        }
    }

    /// Appends a cell (turning the storage into vector storage) and bumps the
    /// sequence number.
    pub fn push(&mut self, cell: Cell)
        requires
            old(self).wf(),
        ensures
            final(self).wf(),
            final(self).holds_vec(old(self).cells_view().push(cell@)),
            final(self).same_but_cells(old(self)),
            final(self).seqno_view() == next_seqno(old(self).seqno_view()),
    {
        self.cells.push(cell);
        self.increment_seqno();
    }

    /// Appends cells one by one, as `push` does.
    pub fn extend(&mut self, cells: Vec<Cell>)
        requires
            old(self).wf(),
        ensures
            final(self).wf(),
            final(self).cells_view() == old(self).cells_view() + cell_models(cells@),
            cells@.len() > 0 ==> final(self).holds_vec(old(self).cells_view() + cell_models(cells@)),
            cells@.len() == 0 ==> final(self).storage() == old(self).storage(),
            final(self).same_but_cells(old(self)),
            final(self).seqno_view() == seqno_after(old(self).seqno_view(), cells@.len()),
    {
        let mut cells = cells;
        let ghost all = cells@;
        let ghost start = self.cells_view();
        let ghost start_storage = self.storage();
        let mut k: usize = 0;
        let n = cells.len();
        while k < n
            invariant
                n == all.len(),
                k <= n,
                cells@.len() == n - k,
                forall|j: int| 0 <= j < n - k ==> #[trigger] cells@[j] == all[k + j],
                self.wf(),
                self.cells_view() == start + cell_models(all.take(k as int)),
                k > 0 ==> self.holds_vec(self.cells_view()),
                k == 0 ==> self.storage() == start_storage,
                self.same_but_cells(old(self)),
                self.seqno_view() == seqno_after(old(self).seqno_view(), k as nat),
            decreases n - k,
        {
            let c = cells.remove(0);
            proof {
                assert(c == all[k as int]);
                assert(cell_models(all.take(k + 1)) =~= cell_models(all.take(k as int)).push(c@));
            }
            self.push(c);
            k = k + 1;
        }
        assert(all.take(n as int) =~= all);
    }

    /// Appends the cells of `other`, its zones moved past this line's old
    /// length, and its flags; then bumps the sequence number once more.
    pub fn append_line(&mut self, other: &Line)
        requires
            old(self).wf(),
            other.wf(),
            old(self).spec_len() <= isize::MAX,
            forall|i: int|
                0 <= i < other.zones_view().len() ==> (#[trigger] other.zones_view()[i]).end + old(self).spec_len()
                    <= isize::MAX && other.zones_view()[i].wf(),
        ensures
            final(self).wf(),
            final(self).cells_view() == old(self).cells_view() + other.cells_view(),
            final(self).zones_view() == old(self).zones_view() + other.zones_view().map_values(
                |z: ZoneRange|
                    ZoneRange {
                        start: (z.start + old(self).spec_len()) as usize,
                        end: (z.end + old(self).spec_len()) as usize,
                        semantic_type: z.semantic_type,
                    },
            ),
            final(self).bits_view() == old(self).bits_view() | other.bits_view(),
            final(self).seqno_view() == next_seqno(
                seqno_after(old(self).seqno_view(), other.cells_view().len()),
            ),
    {
        let offset = self.len();
        let other_cells = other.to_vec();
        self.extend(other_cells);
        let ghost mid_zones = self.zones@;
        let mut i: usize = 0;
        while i < other.zones.len()
            invariant
                i <= other.zones@.len(),
                offset == old(self).spec_len(),
                offset <= isize::MAX,
                forall|j: int|
                    0 <= j < other.zones_view().len() ==> (#[trigger] other.zones_view()[j]).end + offset
                        <= isize::MAX && other.zones_view()[j].wf(),
                self.zones@ == mid_zones + other.zones@.take(i as int).map_values(
                    |z: ZoneRange|
                        ZoneRange {
                            start: (z.start + offset) as usize,
                            end: (z.end + offset) as usize,
                            semantic_type: z.semantic_type,
                        },
                ),
                self.wf(),
                self.cells_view() == old(self).cells_view() + other.cells_view(),
                self.bits@ == old(self).bits@,
                self.seqno == seqno_after(old(self).seqno_view(), other.cells_view().len()),
                mid_zones == old(self).zones@,
            decreases other.zones@.len() - i,
        {
            let z = other.zones[i];
            assert(other.zones_view()[i as int] == z);
            let moved = z.offset(offset as isize);
            self.zones.push(moved);
            assert(other.zones@.take(i + 1) =~= other.zones@.take(i as int).push(z));
            i = i + 1;
        }
        assert(other.zones@.take(i as int) =~= other.zones@);
        self.bits.insert(other.bits);
        self.increment_seqno();
    }

    /// Cuts the line to `new_len` cells or pads it with copies of `fill`
    /// (vector storage), and bumps the sequence number.
    pub fn resize(&mut self, new_len: usize, fill: Cell)
        requires
            old(self).wf(),
        ensures
            final(self).wf(),
            final(self).holds_vec(resized(old(self).cells_view(), new_len as nat, fill@)),
            final(self).same_but_cells(old(self)),
            final(self).seqno_view() == next_seqno(old(self).seqno_view()),
    {
        self.cells.resize(new_len, fill);
        self.increment_seqno();
    }

    /// Removes every cell, zone and flag, and bumps the sequence number.
    pub fn clear(&mut self)
        ensures
            final(self).wf(),
            final(self).cells_view() == Seq::<CellModel>::empty(),
            final(self).spec_len() == 0,
            final(self).zones_view() == Seq::<ZoneRange>::empty(),
            final(self).bits_view() == 0,
            final(self).seqno_view() == next_seqno(old(self).seqno_view()),
            (final(self).storage() is V) == (old(self).storage() is V),
    {
        self.cells.clear();
        self.zones.clear();
        self.bits = LineBits::default();
        self.increment_seqno();
    }

    /// The cells, as a vector.
    pub fn to_vec(&self) -> (v: Vec<Cell>)
        requires
            self.wf(),
        ensures
            cell_models(v@) == self.cells_view(),
    {
        self.cells.to_vec()
    }

    /// The same line with clustered storage.
    pub fn into_clustered(self) -> (l: Line)
        requires
            self.storage() is V ==> self.storage()->V_0@.len() <= u16::MAX,
        ensures
            l.storage() is C,
            self.storage() is C ==> l.storage() == self.storage(),
            self.storage() is V ==> (l.wf() && l.storage()->C_0.cell_count() == self.storage()->V_0@.len()),
            l.zones_view() == self.zones_view(),
            l.bits_view() == self.bits_view(),
            l.seqno_view() == self.seqno_view(),
    {
        let Line { cells, zones, seqno, bits } = self;
        Line { cells: cells.into_clustered(), zones, seqno, bits }
    }

    /// Turns clustered storage into vector storage of the same cells.
    pub fn ensure_vec(&mut self)
        requires
            old(self).wf(),
        ensures
            final(self).wf(),
            final(self).holds_vec(old(self).cells_view()),
            final(self).same_but_cells(old(self)),
            final(self).seqno_view() == old(self).seqno_view(),
    {
        self.cells.ensure_vec();
    }

    /// Whether the storage is clustered.
    pub fn is_clustered(&self) -> (r: bool)
        ensures
            r == (self.storage() is C),
    {
        self.cells.is_clustered()
    }

    /// The sequence number.
    pub fn seqno(&self) -> (s: u64)
        ensures
            s == self.seqno_view(),
    {
        self.seqno
    }

    /// Sets the sequence number.
    pub fn set_seqno(&mut self, seqno: u64)
        ensures
            final(self).seqno_view() == seqno,
            final(self).storage() == old(self).storage(),
            final(self).same_but_cells(old(self)),
    {
        self.seqno = seqno;
    }

    /// The line flags.
    pub fn bits(&self) -> (b: LineBits)
        ensures
            b@ == self.bits_view(),
    {
        self.bits
    }

    /// The line flags, for update in place.
    pub fn bits_mut(&mut self) -> (b: &mut LineBits)
        ensures
            b@ == old(self).bits_view(),
            final(self).bits_view() == final(b)@,
            final(self).storage() == old(self).storage(),
            final(self).zones_view() == old(self).zones_view(),
            final(self).seqno_view() == old(self).seqno_view(),
    {
        &mut self.bits
    }

    /// Sets the line flags.
    pub fn set_bits(&mut self, bits: LineBits)
        ensures
            final(self).bits_view() == bits@,
            final(self).storage() == old(self).storage(),
            final(self).zones_view() == old(self).zones_view(),
            final(self).seqno_view() == old(self).seqno_view(),
    {
        self.bits = bits;
    }

    /// Whether the line wraps onto the next.
    pub fn is_wrapped(&self) -> (r: bool)
        ensures
            r == (self.bits_view() & 512 == 512),
    {
        self.bits.is_wrapped()
    }

    /// Sets or clears the wrapped flag.
    pub fn set_wrapped(&mut self, wrapped: bool)
        ensures
            final(self).bits_view() == with_flags(old(self).bits_view(), 512, wrapped),
            final(self).storage() == old(self).storage(),
            final(self).zones_view() == old(self).zones_view(),
            final(self).seqno_view() == old(self).seqno_view(),
    {
        self.bits.set_wrapped(wrapped);
    }

    /// Whether the line holds a hyperlink.
    pub fn has_hyperlink(&self) -> (r: bool)
        ensures
            r == (self.bits_view() & 2 == 2),
    {
        self.bits.has_hyperlink()
    }

    /// Sets or clears the hyperlink flag.
    pub fn set_has_hyperlink(&mut self, value: bool)
        ensures
            final(self).bits_view() == with_flags(old(self).bits_view(), 2, value),
            final(self).storage() == old(self).storage(),
            final(self).zones_view() == old(self).zones_view(),
            final(self).seqno_view() == old(self).seqno_view(),
    {
        self.bits.set_has_hyperlink(value);
    }

    /// Whether the line is double width.
    pub fn is_double_width(&self) -> (r: bool)
        ensures
            r == (self.bits_view() & 16 == 16),
    {
        self.bits.is_double_width()
    }

    /// Sets or clears the double-width flag.
    pub fn set_double_width(&mut self, value: bool)
        ensures
            final(self).bits_view() == with_flags(old(self).bits_view(), 16, value),
            final(self).storage() == old(self).storage(),
            final(self).zones_view() == old(self).zones_view(),
            final(self).seqno_view() == old(self).seqno_view(),
    {
        self.bits.set_double_width(value);
    }

    /// The semantic zones.
    pub fn zones(&self) -> (z: &[ZoneRange])
        ensures
            z@ == self.zones_view(),
    {
        self.zones.as_slice()
    }

    /// The semantic zones, for update in place.
    pub fn zones_mut(&mut self) -> (z: &mut Vec<ZoneRange>)
        ensures
            z@ == old(self).zones_view(),
            final(self).zones_view() == final(z)@,
            final(self).storage() == old(self).storage(),
            final(self).bits_view() == old(self).bits_view(),
            final(self).seqno_view() == old(self).seqno_view(),
    {
        &mut self.zones
    }

    /// Adds a zone and bumps the sequence number.
    pub fn add_zone(&mut self, zone: ZoneRange)
        ensures
            final(self).zones_view() == old(self).zones_view().push(zone),
            final(self).storage() == old(self).storage(),
            final(self).bits_view() == old(self).bits_view(),
            final(self).seqno_view() == next_seqno(old(self).seqno_view()),
    {
        self.zones.push(zone);
        self.increment_seqno();
    }

    /// Replaces the zones and bumps the sequence number.
    pub fn set_zones(&mut self, zones: Vec<ZoneRange>)
        ensures
            final(self).zones_view() == zones@,
            final(self).storage() == old(self).storage(),
            final(self).bits_view() == old(self).bits_view(),
            final(self).seqno_view() == next_seqno(old(self).seqno_view()),
    {
        self.zones = zones;
        self.increment_seqno();
    }

    /// Removes every zone and bumps the sequence number.
    pub fn clear_zones(&mut self)
        ensures
            final(self).zones_view() == Seq::<ZoneRange>::empty(),
            final(self).storage() == old(self).storage(),
            final(self).bits_view() == old(self).bits_view(),
            final(self).seqno_view() == next_seqno(old(self).seqno_view()),
    {
        self.zones.clear();
        self.increment_seqno();
    }

    /// The index of the first zone holding column `pos`, if any.
    pub open spec fn first_zone_at(&self, pos: int) -> Option<int> {
        if exists|i: int| 0 <= i < self.zones_view().len() && self.zones_view()[i].spec_contains(pos) {
            Some(
                choose|i: int|
                    0 <= i < self.zones_view().len() && self.zones_view()[i].spec_contains(pos) && forall|
                        j: int,
                    |
                        0 <= j < i ==> !(#[trigger] self.zones_view()[j]).spec_contains(pos),
            )
        } else {
            None
        }
    }

    /// Finds the first zone holding column `pos`.
    fn find_zone(&self, pos: usize) -> (r: Option<usize>)
        ensures
            match r {
                Some(i) => i < self.zones_view().len() && self.zones_view()[i as int].spec_contains(pos as int)
                    && forall|j: int| 0 <= j < i ==> !(#[trigger] self.zones_view()[j]).spec_contains(pos as int),
                None => forall|j: int|
                    0 <= j < self.zones_view().len() ==> !(#[trigger] self.zones_view()[j]).spec_contains(pos as int),
            },
    {
        let mut i: usize = 0;
        while i < self.zones.len()
            invariant
                i <= self.zones@.len(),
                forall|j: int| 0 <= j < i ==> !(#[trigger] self.zones_view()[j]).spec_contains(pos as int),
            decreases self.zones@.len() - i,
        {
            if self.zones[i].contains(pos) {
                return Some(i);
            }
            i = i + 1;
        }
        None
    }

    /// The semantic type of the first zone holding column `pos`.
    pub fn semantic_type_at(&self, pos: usize) -> (t: Option<SemanticType>)
        ensures
            t == (match self.first_zone_at(pos as int) {
                Some(i) => Some(self.zones_view()[i].semantic_type),
                None => None,
            }),
    {
        match self.zone_at(pos) {
            Some(z) => Some(z.semantic_type),
            None => None,
        }
    }

    /// The first zone holding column `pos`.
    pub fn zone_at(&self, pos: usize) -> (z: Option<&ZoneRange>)
        ensures
            z == (match self.first_zone_at(pos as int) {
                Some(i) => Some(&self.zones_view()[i]),
                None => None,
            }),
    {
        match self.find_zone(pos) {
            Some(i) => {
                proof {
                    let k = choose|k: int|
                        0 <= k < self.zones_view().len() && self.zones_view()[k].spec_contains(pos as int)
                            && forall|j: int|
                            0 <= j < k ==> !(#[trigger] self.zones_view()[j]).spec_contains(pos as int);
                    assert(k == i as int) by {
                        if k < i {
                        } else if k > i {
                            assert(!self.zones_view()[i as int].spec_contains(pos as int));
                        }
                    }
                }
                Some(&self.zones[i])
            },
            None => None,
        }
    }

    /// The zones that share a column with `start..end`, in order.
    pub fn zones_in_range(&self, start: usize, end: usize) -> (r: Vec<&ZoneRange>)
        requires
            start <= end,
        ensures
            r@.map_values(|z: &ZoneRange| *z) == self.zones_view().filter(
                |z: ZoneRange| z.spec_overlaps(ZoneRange { start, end, semantic_type: SemanticType::Output }),
            ),
    {
        let range = ZoneRange::new(start, end, SemanticType::Output);
        let ghost pred = |z: ZoneRange| z.spec_overlaps(range);
        let mut r: Vec<&ZoneRange> = Vec::new();
        let mut i: usize = 0;
        while i < self.zones.len()
            invariant
                i <= self.zones@.len(),
                pred == (|z: ZoneRange| z.spec_overlaps(range)),
                r@.map_values(|z: &ZoneRange| *z) == self.zones_view().take(i as int).filter(pred),
            decreases self.zones@.len() - i,
        {
            let ghost before = r@.map_values(|z: &ZoneRange| *z);
            reveal_with_fuel(Seq::filter, 1);
            assert(self.zones_view().take(i + 1).drop_last() =~= self.zones_view().take(i as int));
            if self.zones[i].overlaps(&range) {
                r.push(&self.zones[i]);
                assert(r@.map_values(|z: &ZoneRange| *z) =~= before.push(self.zones_view()[i as int]));
            } else {
                assert(r@.map_values(|z: &ZoneRange| *z) =~= before);
            }
            i = i + 1;
        }
        assert(self.zones_view().take(i as int) =~= self.zones_view());
        r
    }

    /// Merges runs of adjacent zones of the same type, left to right; bumps
    /// the sequence number when there were two zones or more.
    pub fn consolidate_zones(&mut self)
        ensures
            final(self).zones_view() == consolidated(old(self).zones_view()),
            final(self).storage() == old(self).storage(),
            final(self).bits_view() == old(self).bits_view(),
            final(self).seqno_view() == (if old(self).zones_view().len() <= 1 {
                old(self).seqno_view()
            } else {
                next_seqno(old(self).seqno_view())
            }),
    {
        if self.zones.len() <= 1 {
            return;
        }
        let ghost zs = self.zones@;
        let mut consolidated_zones: Vec<ZoneRange> = Vec::new();
        let mut current = self.zones[0];
        let mut i: usize = 1;
        while i < self.zones.len()
            invariant
                1 <= i <= self.zones@.len(),
                self.zones@ == zs,
                zs.len() > 1,
                consolidate_from(consolidated_zones@, current, zs.subrange(i as int, zs.len() as int))
                    == consolidated(zs),
            decreases self.zones@.len() - i,
        {
            let z = self.zones[i];
            let ghost rest = zs.subrange(i as int, zs.len() as int);
            assert(rest[0] == z);
            assert(rest.drop_first() =~= zs.subrange(i + 1, zs.len() as int));
            if current.can_merge(&z) {
                current = current.merge(&z);
            } else {
                consolidated_zones.push(current);
                current = z;
            }
            i = i + 1;
        }
        consolidated_zones.push(current);
        proof {
            assert(zs.subrange(i as int, zs.len() as int) =~= Seq::<ZoneRange>::empty());
            assert(zs.drop_first() =~= zs.subrange(1, zs.len() as int));
        }
        self.zones = consolidated_zones;
        self.increment_seqno();
    }

    /// Cell `k` of `cells` belongs to a word: its text neither occurs in
    /// `delims` nor is all white space.
    pub open spec fn word_cell(cells: Seq<CellModel>, delims: Seq<char>, k: int) -> bool {
        !(contains_seq(delims, cells[k].text) || all_white_space(cells[k].text))
    }

    /// The word under column `pos`: the widest run of word cells that holds
    /// `pos`. `None` when `pos` is past the end or its cell is a delimiter
    /// or white space (a double click there selects no word).
    pub fn double_click_range(&self, pos: usize, delimiters: &str) -> (r: Option<(usize, usize)>)
        requires
            self.wf(),
            pos < self.spec_len() ==> pos <= self.cells_view().len(),
        ensures
            ({
                let cells = self.cells_view();
                &&& (r is None <==> (pos >= self.spec_len() || pos >= cells.len() || !Self::word_cell(
                    cells,
                    delimiters@,
                    pos as int,
                )))
                &&& r matches Some((s, e)) ==> {
                    &&& s <= pos < e <= cells.len()
                    &&& forall|k: int| s <= k < e ==> Self::word_cell(cells, delimiters@, k)
                    &&& s == 0 || !Self::word_cell(cells, delimiters@, s - 1)
                    &&& e == cells.len() || !Self::word_cell(cells, delimiters@, e as int)
                }
            }),
    {
        if pos >= self.len() {
            return None;
        }
        let cells = self.to_vec();
        let ghost cm = self.cells_view();
        if pos >= cells.len() {
            return None;
        }
        let here = cells[pos].text();
        assert(cm[pos as int] == cells@[pos as int]@);
        if str_contains(delimiters, here) || is_white_space_only(here) {
            return None;
        }
        let mut start = pos;
        let mut end = pos;
        while start > 0
            invariant
                cell_models(cells@) == cm,
                start <= pos <= cells@.len(),
                forall|k: int| start <= k < pos ==> Self::word_cell(cm, delimiters@, k),
            ensures
                start <= pos,
                forall|k: int| start <= k < pos ==> Self::word_cell(cm, delimiters@, k),
                start == 0 || !Self::word_cell(cm, delimiters@, start - 1),
            decreases start,
        {
            let cell_text = cells[start - 1].text();
            assert(cm[start - 1] == cells@[start - 1]@);
            if str_contains(delimiters, cell_text) || is_white_space_only(cell_text) {
                break;
            }
            start = start - 1;
        }
        while end < cells.len()
            invariant
                cell_models(cells@) == cm,
                pos <= end <= cells@.len(),
                forall|k: int| pos <= k < end ==> Self::word_cell(cm, delimiters@, k),
            ensures
                pos <= end <= cells@.len(),
                forall|k: int| pos <= k < end ==> Self::word_cell(cm, delimiters@, k),
                end == cells@.len() || !Self::word_cell(cm, delimiters@, end as int),
            decreases cells@.len() - end,
        {
            let cell_text = cells[end].text();
            assert(cm[end as int] == cells@[end as int]@);
            if str_contains(delimiters, cell_text) || is_white_space_only(cell_text) {
                break;
            }
            end = end + 1;
        }
        if start < end {
            Some((start, end))
        } else {
            None
        }
    }

    /// An estimate in bytes of the memory the line takes (the sum saturates).
    pub fn memory_usage(&self) -> (n: usize)
        ensures
            n >= core::mem::size_of::<Line>(),
    {
        let cap = vec_capacity(&self.zones);
        let size = core::mem::size_of::<ZoneRange>();
        let zones = if size == 0 {
            0
        } else if cap <= usize::MAX / size {
            proof {
                vstd::arithmetic::div_mod::lemma_fundamental_div_mod(usize::MAX as int, size as int);
                assert(cap * size <= (usize::MAX / size) * size) by (nonlinear_arith)
                    requires cap <= usize::MAX / size, size > 0;
            }
            cap * size
        } else {
            usize::MAX
        };
        core::mem::size_of::<Line>().saturating_add(self.cells.memory_usage()).saturating_add(zones)
    }

    /// The texts of all cells, concatenated.
    pub fn text(&self) -> (s: String)
        requires
            self.wf(),
        ensures
            s@ == concat_texts(self.cells_view()),
    {
        let cells = self.to_vec();
        let mut s = String::new();
        let mut i: usize = 0;
        while i < cells.len()
            invariant
                i <= cells@.len(),
                s@ == concat_texts(cell_models(cells@).take(i as int)),
            decreases cells@.len() - i,
        {
            push_str(&mut s, cells[i].text());
            assert(cell_models(cells@).take(i + 1).drop_last() =~= cell_models(cells@).take(i as int));
            i = i + 1;
        }
        assert(cell_models(cells@).take(i as int) =~= cell_models(cells@));
        s
    }

    /// The texts of the cells `start..end` (the end capped at the last cell),
    /// concatenated.
    pub fn text_range(&self, start: usize, end: usize) -> (s: String)
        requires
            self.wf(),
            start <= end,
            start <= self.cells_view().len(),
        ensures
            s@ == concat_texts(
                self.cells_view().subrange(
                    start as int,
                    if end <= self.cells_view().len() { end as int } else { self.cells_view().len() as int },
                ),
            ),
    {
        let cells = self.to_vec();
        let stop = if end <= cells.len() { end } else { cells.len() };
        let ghost sub = cell_models(cells@).subrange(start as int, stop as int);
        let mut s = String::new();
        let mut i: usize = start;
        while i < stop
            invariant
                start <= i <= stop <= cells@.len(),
                sub == cell_models(cells@).subrange(start as int, stop as int),
                s@ == concat_texts(sub.take(i - start)),
            decreases stop - i,
        {
            push_str(&mut s, cells[i].text());
            assert(sub.take(i + 1 - start).drop_last() =~= sub.take(i - start));
            assert(sub[i - start] == cells@[i as int]@);
            i = i + 1;
        }
        assert(sub.take(stop - start) =~= sub);
        s
    }
}

impl Default for Line {
    fn default() -> (l: Line)
        ensures
            l.wf(),
            l.holds_vec(Seq::empty()),
            l.zones_view() == Seq::<ZoneRange>::empty(),
            l.seqno_view() == 0,
            l.bits_view() == 0,
    {
        Line::new()
    }
}

} // verus!
