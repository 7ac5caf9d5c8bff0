//! Storage of the cells of a line: a plain vector, or the compact
//! clustered form.
use vstd::prelude::*;

use super::cell::{Cell, CellModel};
use super::clusterline::{cell_models, vec_capacity, ClusteredLine};

verus! {

/// A deep copy of a sequence of cells.
pub fn clone_cells(cells: &[Cell]) -> (v: Vec<Cell>)
    ensures
        cell_models(v@) == cell_models(cells@),
{
    let mut v: Vec<Cell> = Vec::new();
    let mut i: usize = 0;
    while i < cells.len()
        invariant
            i <= cells@.len(),
            v@.len() == i,
            forall|j: int| 0 <= j < i ==> #[trigger] v@[j]@ == cells@[j]@,
        decreases cells@.len() - i,
    {
        v.push(cells[i].clone_cell());
        i = i + 1;
    }
    assert(cell_models(v@) =~= cell_models(cells@));
    v
}

/// The cells of a line.
#[derive(Debug, Clone, PartialEq, Eq)]
pub enum CellStorage {
    /// A vector of cells.
    V(Vec<Cell>),
    /// The clustered form.
    C(ClusteredLine),
}

impl CellStorage {
    /// Internal consistency: a clustered line is well formed and its cells fit a vector.
    pub open spec fn wf(&self) -> bool {
        match self {
            CellStorage::V(_) => true,
            CellStorage::C(c) => c.wf() && c.cell_count() < usize::MAX,
        }
    }

    /// The cells stored.
    pub open spec fn cells(&self) -> Seq<CellModel> {
        match self {
            CellStorage::V(v) => cell_models(v@),
            CellStorage::C(c) => c.restored_cells(),
        }
    }

    /// The length `len` reports: the number of cells of a vector, the width in
    /// columns of a clustered line.
    pub open spec fn spec_len(&self) -> nat {
        match self {
            CellStorage::V(v) => v@.len(),
            CellStorage::C(c) => c.len_view() as nat,
        }
    }

    /// Vector storage of `cells`.
    pub fn new_vec(cells: Vec<Cell>) -> (s: CellStorage)
        ensures
            s == CellStorage::V(cells),
            s.wf(),
    {
        CellStorage::V(cells)
    }

    /// Empty vector storage.
    pub fn new_vec_empty() -> (s: CellStorage)
        ensures
            s matches CellStorage::V(v) && v@.len() == 0,
            s.wf(),
    {
        CellStorage::V(Vec::new())
    }

    /// Empty vector storage with room for `capacity` cells.
    pub fn new_vec_with_capacity(capacity: usize) -> (s: CellStorage)
        ensures
            s matches CellStorage::V(v) && v@.len() == 0,
            s.wf(),
    {
        CellStorage::V(Vec::with_capacity(capacity))
    }

    /// Clustered storage of `line`.
    pub fn new_clustered(line: ClusteredLine) -> (s: CellStorage)
        ensures
            s == CellStorage::C(line),
    {
        CellStorage::C(line)
    }

    /// Clustered storage built from `cells`.
    pub fn new_clustered_from_cells(cells: &[Cell]) -> (s: CellStorage)
        requires
            cells@.len() <= u16::MAX,
        ensures
            s.wf(),
            s matches CellStorage::C(c) && c.cell_count() == cells@.len(),
    {
        let c = ClusteredLine::from_cells(cells);
        proof {
            assert(c.cell_count() == cell_models(cells@).map_values(|m: CellModel| m.attrs).len());
        }
        CellStorage::C(c)
    }

    /// A deep copy of the storage, of the same kind.
    pub fn duplicate(&self) -> (s: CellStorage)
        ensures
            s.wf() == self.wf(),
            s.cells() == self.cells(),
            s.spec_len() == self.spec_len(),
            (s is V) == (self is V),
    {
        match self {
            CellStorage::V(v) => {
                let c = clone_cells(v.as_slice());
                CellStorage::V(c)
            },
            CellStorage::C(c) => CellStorage::C(c.duplicate()),
        }
    }

    /// The length: cells of a vector, columns of a clustered line.
    pub fn len(&self) -> (n: usize)
        ensures
            n == self.spec_len(),
    {
        match self {
            CellStorage::V(v) => v.len(),
            CellStorage::C(c) => c.len(),
        }
    }

    /// Whether the length is 0.
    pub fn is_empty(&self) -> (r: bool)
        ensures
            r == (self.spec_len() == 0),
    {
        self.len() == 0
    }

    /// A vector of the cells stored.
    pub fn to_vec(&self) -> (v: Vec<Cell>)
        requires
            self.wf(),
        ensures
            cell_models(v@) == self.cells(),
    {
        match self {
            CellStorage::V(v) => clone_cells(v.as_slice()),
            CellStorage::C(c) => c.to_cells(),
        }
    }

    /// The cell at `index` of vector storage; `None` past the end and for
    /// clustered storage.
    pub fn get(&self, index: usize) -> (r: Option<&Cell>)
        ensures
            r == (match self {
                CellStorage::V(v) => if index < v@.len() { Some(&v@[index as int]) } else { None },
                CellStorage::C(_) => None,
            }),
    {
        match self {
            CellStorage::V(v) => {
                if index < v.len() {
                    Some(&v[index])
                } else {
                    None
                }
            },
            CellStorage::C(_) => None,
        }
    }

    /// The cell at `index` of vector storage, for update in place; `None`
    /// past the end and for clustered storage.
    pub fn get_mut(&mut self, index: usize) -> (r: Option<&mut Cell>)
        ensures
            ((*old(self)) is V && index < old(self).spec_len()) ==> (r matches Some(c) && *c
                == (*old(self))->V_0@[index as int] && (*final(self)) is V && (*final(self))->V_0@ == (*old(self))->V_0@.update(index as int, *final(c))),
            !((*old(self)) is V && index < old(self).spec_len()) ==> (r is None && *final(self) == *old(self)),
    {
        match self {
            CellStorage::V(v) => {
                if index < v.len() {
                    Some(&mut v[index])
                } else {
                    None
                }
            },
            CellStorage::C(_) => None,
        }
    }

    /// Vector storage of the same cells.
    pub fn into_vec(self) -> (s: CellStorage)
        requires
            self.wf(),
        ensures
            s is V,
            s.cells() == self.cells(),
            (self is V) ==> s == self,
    {
        match self {
            CellStorage::V(_) => self,
            CellStorage::C(c) => CellStorage::V(c.to_cells()),
        }
    }

    /// Clustered storage of the same cells.
    pub fn into_clustered(self) -> (s: CellStorage)
        requires
            (self is V) ==> self->V_0@.len() <= u16::MAX,
        ensures
            s is C,
            s.wf() || !self.wf(),
            (self is C) ==> s == self,
            (self is V) ==> (s->C_0.cell_count() == self->V_0@.len() && s.wf()),
    {
        match self {
            CellStorage::V(v) => {
                let c = ClusteredLine::from_cells(v.as_slice());
                proof {
                    assert(c.cell_count() == cell_models(v@).map_values(|m: CellModel| m.attrs).len());
                }
                CellStorage::C(c)
            },
            CellStorage::C(_) => self,
        }
    }

    /// Turns clustered storage into vector storage of the same cells.
    pub fn ensure_vec(&mut self)
        requires
            old(self).wf(),
        ensures
            (*final(self)) is V,
            final(self).cells() == old(self).cells(),
            ((*old(self)) is V) ==> *final(self) == *old(self),
    {
        if let CellStorage::C(c) = self {
            let cells = c.to_cells();
            *self = CellStorage::V(cells);
        }
    }

    /// Whether this is vector storage.
    pub fn is_vec(&self) -> (r: bool)
        ensures
            r == (*self is V),
    {
        match self {
            CellStorage::V(_) => true,
            CellStorage::C(_) => false,
        }
    }

    /// Whether this is clustered storage.
    pub fn is_clustered(&self) -> (r: bool)
        ensures
            r == (*self is C),
    {
        match self {
            CellStorage::V(_) => false,
            CellStorage::C(_) => true,
        }
    }

    /// An estimate in bytes of the memory taken (the sum saturates).
    pub fn memory_usage(&self) -> (n: usize)
        ensures
            *self is V ==> n >= core::mem::size_of::<Vec<Cell>>(),
            *self is C ==> n >= core::mem::size_of::<ClusteredLine>(),
    {
        match self {
            CellStorage::V(v) => {
                let cap = vec_capacity(v);
                let size = core::mem::size_of::<Cell>();
                let cells = if size == 0 {
                    0
                } else if cap <= usize::MAX / size {
                    proof {
                        vstd::arithmetic::div_mod::lemma_fundamental_div_mod(usize::MAX as int, size as int);
                        assert(cap * size <= (usize::MAX / size) * size) by (nonlinear_arith)
                            requires cap <= usize::MAX / size, size > 0;
                    }
                    cap * size
                } else {
                    usize::MAX
                };
                core::mem::size_of::<Vec<Cell>>().saturating_add(cells)
            },
            CellStorage::C(c) => c.memory_usage(),
        }
    }

    /// Appends a cell, turning clustered storage into vector storage first.
    pub fn push(&mut self, cell: Cell)
        requires
            old(self).wf(),
        ensures
            (*final(self)) is V,
            final(self).cells() == old(self).cells().push(cell@),
    {
        self.ensure_vec();
        let ghost mid = self.cells();
        if let CellStorage::V(v) = self {
            v.push(cell);
            assert(cell_models(v@) =~= mid.push(cell@));
        }
    }

    /// Removes every cell; clustered storage stays clustered (and empty).
    pub fn clear(&mut self)
        ensures
            final(self).wf(),
            final(self).cells() == Seq::<CellModel>::empty(),
            final(self).spec_len() == 0,
            ((*old(self)) is V) == ((*final(self)) is V),
    {
        match self {
            CellStorage::V(v) => {
                v.clear();
                assert(cell_models(v@) =~= Seq::<CellModel>::empty());
            },
            CellStorage::C(c) => {
                *c = ClusteredLine::new();
                assert(c.restored_cells() =~= Seq::<CellModel>::empty());
            },
        }
    }

    /// Sets the number of cells to `new_len`: cuts the tail off, or appends
    /// copies of `value`. Clustered storage becomes vector storage first.
    pub fn resize(&mut self, new_len: usize, value: Cell)
        requires
            old(self).wf(),
        ensures
            (*final(self)) is V,
            final(self).cells() == resized(old(self).cells(), new_len as nat, value@),
    {
        self.ensure_vec();
        let ghost mid = self.cells();
        if let CellStorage::V(v) = self {
            resize_cells(v, new_len, &value);
        }
    }
}

/// `cells` cut to `n`, or padded to `n` with `fill`.
pub open spec fn resized(cells: Seq<CellModel>, n: nat, fill: CellModel) -> Seq<CellModel> {
    if n <= cells.len() {
        cells.take(n as int)
    } else {
        cells + Seq::new((n - cells.len()) as nat, |_i: int| fill)
    }
}

/// Cuts `v` to `new_len` cells, or pads it with copies of `value`.
pub fn resize_cells(v: &mut Vec<Cell>, new_len: usize, value: &Cell)
    ensures
        cell_models(final(v)@) == resized(cell_models(old(v)@), new_len as nat, value@),
{
    let ghost start = cell_models(v@);
    if new_len <= v.len() {
        v.truncate(new_len);
        assert(cell_models(v@) =~= start.take(new_len as int));
    } else {
        while v.len() < new_len
            invariant
                start.len() <= v@.len() <= new_len,
                cell_models(v@) == start + Seq::new((v@.len() - start.len()) as nat, |_i: int| value@),
            decreases new_len - v@.len(),
        {
            let ghost before = cell_models(v@);
            let c = value.clone_cell();
            v.push(c);
            assert(cell_models(v@) =~= before.push(c@));
            let ghost k = (v@.len() - 1 - start.len()) as nat;
            assert(Seq::new(k + 1, |_i: int| value@) =~= Seq::new(k, |_i: int| value@).push(value@));
            assert(cell_models(v@) =~= start + Seq::new((v@.len() - start.len()) as nat, |_i: int| value@));
        }
    }
}

impl Default for CellStorage {
    fn default() -> (s: CellStorage)
        ensures
            s matches CellStorage::V(v) && v@.len() == 0,
            s.wf(),
    {
        CellStorage::new_vec_empty()
    }
}

impl From<Vec<Cell>> for CellStorage {
    fn from(vec: Vec<Cell>) -> (s: CellStorage)
        ensures
            s == CellStorage::V(vec),
    {
        CellStorage::V(vec)
    }
}

impl vstd::std_specs::convert::FromSpecImpl<Vec<Cell>> for CellStorage {
    open spec fn obeys_from_spec() -> bool {
        true
    }

    open spec fn from_spec(v: Vec<Cell>) -> CellStorage {
        CellStorage::V(v)
    }
}

impl From<ClusteredLine> for CellStorage {
    fn from(line: ClusteredLine) -> (s: CellStorage)
        ensures
            s == CellStorage::C(line),
    {
        CellStorage::C(line)
    }
}

impl vstd::std_specs::convert::FromSpecImpl<ClusteredLine> for CellStorage {
    open spec fn obeys_from_spec() -> bool {
        true
    }

    open spec fn from_spec(line: ClusteredLine) -> CellStorage {
        CellStorage::C(line)
    }
}

} // verus!
