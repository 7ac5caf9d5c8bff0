//! A memory-compact line: the text of all cells in one string, runs of equal
//! attributes as clusters, and a bit set marking double-width characters.
use vstd::prelude::*;

use super::attributes::CellAttributes;
use super::cell::{blank_model, char_to_string, Cell, CellModel};
use super::cluster::Cluster;

verus! {

/// A fixed-size set of bits.
#[derive(Debug, Clone, PartialEq, Eq)]
pub struct FixedBitSet {
    bits: Vec<bool>,
}

impl View for FixedBitSet {
    type V = Seq<bool>;

    closed spec fn view(&self) -> Seq<bool> {
        self.bits@
    }
}

impl FixedBitSet {
    /// A set of `capacity` bits, all clear.
    pub fn with_capacity(capacity: usize) -> (s: FixedBitSet)
        ensures
            s@ == Seq::new(capacity as nat, |_i: int| false),
    {
        let mut bits: Vec<bool> = Vec::new();
        let mut i: usize = 0;
        while i < capacity
            invariant
                i <= capacity,
                bits@ == Seq::new(i as nat, |_j: int| false),
            decreases capacity - i,
        {
            bits.push(false);
            i = i + 1;
            assert(bits@ =~= Seq::new(i as nat, |_j: int| false));
        }
        FixedBitSet { bits }
    }

    /// Sets bit `index`; an index past the end is ignored.
    pub fn insert(&mut self, index: usize)
        ensures
            final(self)@ == (if index < old(self)@.len() { old(self)@.update(index as int, true) } else { old(self)@ }),
    {
        if index < self.bits.len() {
            self.bits.set(index, true);
        }
    }

    /// Whether bit `index` is set (false past the end).
    pub fn contains(&self, index: usize) -> (r: bool)
        ensures
            r == (index < self@.len() && self@[index as int]),
    {
        index < self.bits.len() && self.bits[index]
    }

    /// The number of bits.
    pub fn len(&self) -> (n: usize)
        ensures
            n == self@.len(),
    {
        self.bits.len()
    }

    /// Whether there are no bits at all.
    pub fn is_empty(&self) -> (r: bool)
        ensures
            r == (self@.len() == 0),
    {
        self.bits.len() == 0
    }

    /// A copy of the set.
    pub fn duplicate(&self) -> (s: FixedBitSet)
        ensures
            s@ == self@,
    {
        let mut bits: Vec<bool> = Vec::new();
        let mut i: usize = 0;
        while i < self.bits.len()
            invariant
                i <= self.bits@.len(),
                bits@ == self.bits@.take(i as int),
            decreases self.bits@.len() - i,
        {
            bits.push(self.bits[i]);
            i = i + 1;
            assert(bits@ =~= self.bits@.take(i as int));
        }
        assert(self.bits@.take(i as int) =~= self.bits@);
        FixedBitSet { bits }
    }
}

/// The number of bits of the double-width set a line allocates.
pub open spec fn double_wide_capacity() -> nat {
    128
}

/// The attributes of every character of a run sequence: each cluster
/// repeated as many times as its length.
pub open spec fn expand_attrs(clusters: Seq<Cluster>) -> Seq<CellAttributes>
    decreases clusters.len(),
{
    if clusters.len() == 0 {
        Seq::empty()
    } else {
        expand_attrs(clusters.drop_last()) + Seq::new(
            clusters.last().cell_width as nat,
            |_i: int| clusters.last().attrs,
        )
    }
}

/// The cell that `to_cells` produces at character index `j`.
pub open spec fn restored_cell(text: Seq<char>, attrs: CellAttributes, double: bool, j: int) -> CellModel {
    if j < text.len() {
        CellModel { text: seq![text[j]], attrs, width: if double { 2 } else { 1 } }
    } else {
        blank_model(attrs)
    }
}

/// The models of a sequence of cells.
pub open spec fn cell_models(cells: Seq<Cell>) -> Seq<CellModel> {
    cells.map_values(|c: Cell| c@)
}

/// The concatenated texts of a sequence of cells.
pub open spec fn concat_texts(cells: Seq<CellModel>) -> Seq<char>
    decreases cells.len(),
{
    if cells.len() == 0 {
        Seq::empty()
    } else {
        concat_texts(cells.drop_last()) + cells.last().text
    }
}

/// The summed widths of a sequence of cells.
pub open spec fn sum_widths(cells: Seq<CellModel>) -> nat
    decreases cells.len(),
{
    if cells.len() == 0 {
        0
    } else {
        sum_widths(cells.drop_last()) + cells.last().width as nat
    }
}

/// A line stored as text plus attribute runs.
#[derive(Debug, Clone, PartialEq, Eq)]
pub struct ClusteredLine {
    text: String,
    is_double_wide: Option<Box<FixedBitSet>>,
    clusters: Vec<Cluster>,
    len: u32,
    last_cell_width: Option<u8>,
}

impl ClusteredLine {
    /// The text of all characters.
    pub closed spec fn text_view(&self) -> Seq<char> {
        self.text@
    }

    /// The attribute runs.
    pub closed spec fn clusters_view(&self) -> Seq<Cluster> {
        self.clusters@
    }

    /// The length in columns (the sum of the appended cells' widths).
    pub closed spec fn len_view(&self) -> u32 {
        self.len
    }

    /// Whether character `j` is marked double width.
    pub closed spec fn is_double_at(&self, j: int) -> bool {
        match self.is_double_wide {
            Some(b) => 0 <= j < b@.len() && b@[j],
            None => false,
        }
    }

    /// Whether any double-width mark set exists.
    pub closed spec fn has_double_set(&self) -> bool {
        self.is_double_wide is Some
    }

    /// The number of characters the runs cover.
    pub open spec fn cell_count(&self) -> nat {
        expand_attrs(self.clusters_view()).len()
    }

    /// Internal consistency: a double-width set, where present, has the fixed capacity.
    pub closed spec fn wf(&self) -> bool {
        self.is_double_wide matches Some(b) ==> b@.len() == double_wide_capacity()
    }

    /// The cells `to_cells` gives back.
    pub open spec fn restored_cells(&self) -> Seq<CellModel> {
        Seq::new(
            self.cell_count(),
            |j: int|
                restored_cell(
                    self.text_view(),
                    expand_attrs(self.clusters_view())[j],
                    self.is_double_at(j),
                    j,
                ),
        )
    }
}

/// Appending one more run to a run sequence appends its attributes.
proof fn lemma_expand_push(clusters: Seq<Cluster>, c: Cluster)
    ensures
        expand_attrs(clusters.push(c)) == expand_attrs(clusters) + Seq::new(
            c.cell_width as nat,
            |_i: int| c.attrs,
        ),
{
    assert(clusters.push(c).drop_last() =~= clusters);
}

/// Lengthening the last run by one appends its attributes once more.
proof fn lemma_expand_grow_last(clusters: Seq<Cluster>, w: u16)
    requires
        clusters.len() > 0,
        w == clusters.last().cell_width + 1,
    ensures
        expand_attrs(clusters.update(clusters.len() - 1, Cluster { cell_width: w, attrs: clusters.last().attrs }))
            == expand_attrs(clusters).push(clusters.last().attrs),
{
    let c2 = Cluster { cell_width: w, attrs: clusters.last().attrs };
    let s2 = clusters.update(clusters.len() - 1, c2);
    assert(s2.drop_last() =~= clusters.drop_last());
    let a = clusters.last().attrs;
    assert(Seq::new(w as nat, |_i: int| a) =~= Seq::new(clusters.last().cell_width as nat, |_i: int| a).push(a));
    assert(expand_attrs(s2) =~= expand_attrs(clusters).push(a));
}

/// The runs of a prefix of a run sequence cover a prefix of its characters.
proof fn lemma_expand_take(clusters: Seq<Cluster>, k: int)
    requires
        0 <= k < clusters.len(),
    ensures
        expand_attrs(clusters.take(k + 1)) == expand_attrs(clusters.take(k)) + Seq::new(
            clusters[k].cell_width as nat,
            |_i: int| clusters[k].attrs,
        ),
{
    assert(clusters.take(k + 1).drop_last() =~= clusters.take(k));
}

/// The characters covered by a prefix of runs are a prefix of all covered characters.
proof fn lemma_expand_prefix(clusters: Seq<Cluster>, k: int)
    requires
        0 <= k <= clusters.len(),
    ensures
        expand_attrs(clusters.take(k)).len() <= expand_attrs(clusters).len(),
        forall|j: int|
            0 <= j < expand_attrs(clusters.take(k)).len() ==> #[trigger] expand_attrs(clusters.take(k))[j]
                == expand_attrs(clusters)[j],
    decreases clusters.len() - k,
{
    if k == clusters.len() {
        assert(clusters.take(k) =~= clusters);
    } else {
        lemma_expand_take(clusters, k);
        lemma_expand_prefix(clusters, k + 1);
        let a = expand_attrs(clusters.take(k));
        let b = expand_attrs(clusters.take(k + 1));
        assert forall|j: int| 0 <= j < a.len() implies #[trigger] a[j] == expand_attrs(clusters)[j] by {
            assert(b[j] == a[j]);
        }
    }
}

impl ClusteredLine {
    /// An empty line.
    pub fn new() -> (l: ClusteredLine)
        ensures
            l.wf(),
            l.text_view() == Seq::<char>::empty(),
            l.clusters_view() == Seq::<Cluster>::empty(),
            l.len_view() == 0,
            !l.has_double_set(),
            l.cell_count() == 0,
    {
        ClusteredLine {
            text: String::new(),
            is_double_wide: None,
            clusters: Vec::new(),
            len: 0,
            last_cell_width: None,
        }
    }

    /// An empty line, with room reserved for about `capacity` characters.
    pub fn with_capacity(capacity: usize) -> (l: ClusteredLine)
        ensures
            l.wf(),
            l.text_view() == Seq::<char>::empty(),
            l.clusters_view() == Seq::<Cluster>::empty(),
            l.len_view() == 0,
            !l.has_double_set(),
            l.cell_count() == 0,
    {
        ClusteredLine {
            text: String::new(),
            is_double_wide: None,
            clusters: Vec::with_capacity(capacity / 4),
            len: 0,
            last_cell_width: None,
        }
    }

    /// The length in columns.
    pub fn len(&self) -> (n: usize)
        ensures
            n == self.len_view(),
    {
        self.len as usize
    }

    /// Whether the length is 0.
    pub fn is_empty(&self) -> (r: bool)
        ensures
            r == (self.len_view() == 0),
    {
        self.len == 0
    }

    /// Whether appending `cell` would extend the last run.
    pub open spec fn merges_with_last(&self, cell: CellModel) -> bool {
        self.clusters_view().len() > 0 && self.clusters_view().last().attrs == cell.attrs
    }

    /// Appends a cell: its text to the text, a character to the runs (joining
    /// the last run when the attributes are equal), its width to the length,
    /// and a double-width mark when its width is 2.
    pub fn append_cell(&mut self, cell: &Cell)
        requires
            old(self).wf(),
            old(self).len_view() + cell@.width <= u32::MAX,
            old(self).merges_with_last(cell@) ==> old(self).clusters_view().last().cell_width < u16::MAX,
        ensures
            final(self).wf(),
            final(self).text_view() == old(self).text_view() + cell@.text,
            final(self).len_view() == old(self).len_view() + cell@.width,
            expand_attrs(final(self).clusters_view()) == expand_attrs(old(self).clusters_view()).push(cell@.attrs),
            forall|j: int|
                #[trigger] final(self).is_double_at(j) == (old(self).is_double_at(j) || (cell@.width == 2
                    && j == old(self).text_view().len() && j < double_wide_capacity())),
            final(self).has_double_set() == (old(self).has_double_set() || cell@.width == 2),
            old(self).merges_with_last(cell@) ==> final(self).clusters_view() == old(self).clusters_view().update(
                old(self).clusters_view().len() - 1,
                Cluster {
                    cell_width: (old(self).clusters_view().last().cell_width + 1) as u16,
                    attrs: cell@.attrs,
                },
            ),
            !old(self).merges_with_last(cell@) ==> final(self).clusters_view() == old(self).clusters_view().push(
                Cluster { cell_width: 1, attrs: cell@.attrs },
            ),
    {
        let cell_width = cell.width() as u16;
        let text = cell.text();
        let char_idx = self.text.as_str().unicode_len();
        self.text.append(text);
        if cell_width == 2 {
            match self.is_double_wide.take() {
                Some(mut b) => {
                    b.insert(char_idx);
                    self.is_double_wide = Some(b);
                },
                None => {
                    let mut b = FixedBitSet::with_capacity(128);
                    b.insert(char_idx);
                    self.is_double_wide = Some(Box::new(b));
                },
            }
        }
        let n = self.clusters.len();
        if n > 0 && self.clusters[n - 1].attrs.equals(cell.attrs()) {
            let ghost old_clusters = self.clusters@;
            let mut last = self.clusters.pop().unwrap();
            last.add_width(1);
            self.clusters.push(last);
            proof {
                assert(self.clusters@ =~= old_clusters.update(old_clusters.len() - 1, last));
                lemma_expand_grow_last(old_clusters, last.cell_width);
            }
            self.len = self.len + cell_width as u32;
            self.last_cell_width = if cell_width as u8 == 0 { None } else { Some(cell_width as u8) };
            return;
        }
        let ghost old_clusters = self.clusters@;
        self.clusters.push(Cluster::new(1, cell.attrs().copy()));
        proof {
            lemma_expand_push(old_clusters, Cluster { cell_width: 1, attrs: cell@.attrs });
            assert(Seq::new(1nat, |_i: int| cell@.attrs) =~= seq![cell@.attrs]);
        }
        self.len = self.len + cell_width as u32;
        self.last_cell_width = if cell_width as u8 == 0 { None } else { Some(cell_width as u8) };
    }

    /// A copy of the line: the same text, runs, length and double-width marks.
    pub fn duplicate(&self) -> (l: ClusteredLine)
        ensures
            l.wf() == self.wf(),
            l.text_view() == self.text_view(),
            l.clusters_view() == self.clusters_view(),
            l.len_view() == self.len_view(),
            forall|j: int| #[trigger] l.is_double_at(j) == self.is_double_at(j),
            l.restored_cells() == self.restored_cells(),
    {
        let mut clusters: Vec<Cluster> = Vec::new();
        let mut i: usize = 0;
        while i < self.clusters.len()
            invariant
                i <= self.clusters@.len(),
                clusters@ == self.clusters@.take(i as int),
            decreases self.clusters@.len() - i,
        {
            let c = &self.clusters[i];
            clusters.push(Cluster::new(c.cell_width, c.attrs.copy()));
            i = i + 1;
            assert(clusters@ =~= self.clusters@.take(i as int));
        }
        assert(self.clusters@.take(i as int) =~= self.clusters@);
        let is_double_wide = match &self.is_double_wide {
            Some(b) => Some(Box::new(b.duplicate())),
            None => None,
        };
        let l = ClusteredLine {
            text: self.text.clone(),
            is_double_wide,
            clusters,
            len: self.len,
            last_cell_width: self.last_cell_width,
        };
        assert(l.restored_cells() =~= self.restored_cells());
        l
    }

    /// Builds a line from cells by appending each in turn.
    pub fn from_cells(cells: &[Cell]) -> (l: ClusteredLine)
        requires
            cells@.len() <= u16::MAX,
        ensures
            l.wf(),
            l.text_view() == concat_texts(cell_models(cells@)),
            l.len_view() == sum_widths(cell_models(cells@)),
            expand_attrs(l.clusters_view()) == cell_models(cells@).map_values(|c: CellModel| c.attrs),
            forall|j: int|
                #[trigger] l.is_double_at(j) == (exists|i: int|
                    0 <= i < cells@.len() && cells@[i]@.width == 2 && j < double_wide_capacity()
                        && j == concat_texts(cell_models(cells@).take(i)).len()),
    {
        let mut line = ClusteredLine::with_capacity(cells.len());
        let mut i: usize = 0;
        while i < cells.len()
            invariant
                i <= cells@.len() <= u16::MAX,
                line.wf(),
                line.text_view() == concat_texts(cell_models(cells@).take(i as int)),
                line.len_view() == sum_widths(cell_models(cells@).take(i as int)),
                line.len_view() <= 255 * i,
                expand_attrs(line.clusters_view()) == cell_models(cells@).take(i as int).map_values(
                    |c: CellModel| c.attrs,
                ),
                line.clusters_view().len() <= i,
                forall|k: int| 0 <= k < line.clusters_view().len() ==> #[trigger] line.clusters_view()[k].cell_width <= i,
                forall|j: int|
                    #[trigger] line.is_double_at(j) == (exists|k: int|
                        0 <= k < i && cells@[k]@.width == 2 && j < double_wide_capacity() && j
                            == concat_texts(cell_models(cells@).take(k)).len()),
            decreases cells@.len() - i,
        {
            let ghost models = cell_models(cells@);
            let ghost old_line = line;
            proof {
                assert(models.take(i + 1).drop_last() =~= models.take(i as int));
                if line.clusters_view().len() > 0 {
                    assert(line.clusters_view()[line.clusters_view().len() - 1].cell_width <= i);
                }
            }
            line.append_cell(&cells[i]);
            proof {
                assert(models[i as int] == cells@[i as int]@);
                assert(line.text_view() == concat_texts(models.take(i + 1)));
                assert(line.len_view() == sum_widths(models.take(i + 1)));
                assert(models.take(i + 1).map_values(|c: CellModel| c.attrs) =~= models.take(i as int).map_values(
                    |c: CellModel| c.attrs,
                ).push(models[i as int].attrs));
                assert forall|k: int| 0 <= k < line.clusters_view().len() implies #[trigger] line.clusters_view()[k].cell_width <= i + 1 by {
                    if old_line.merges_with_last(cells@[i as int]@) {
                        if k < old_line.clusters_view().len() - 1 {
                            assert(line.clusters_view()[k] == old_line.clusters_view()[k]);
                        }
                    } else {
                        if k < old_line.clusters_view().len() {
                            assert(line.clusters_view()[k] == old_line.clusters_view()[k]);
                        }
                    }
                }
                assert forall|j: int|
                    #[trigger] line.is_double_at(j) == (exists|k: int|
                        0 <= k < i + 1 && cells@[k]@.width == 2 && j < double_wide_capacity() && j
                            == concat_texts(models.take(k)).len()) by {
                    if line.is_double_at(j) && !old_line.is_double_at(j) {
                        assert(0 <= i < i + 1 && cells@[i as int]@.width == 2 && j < double_wide_capacity() && j
                            == concat_texts(models.take(i as int)).len());
                    }
                    if (exists|k: int|
                        0 <= k < i + 1 && cells@[k]@.width == 2 && j < double_wide_capacity() && j
                            == concat_texts(models.take(k)).len()) {
                        let k = choose|k: int|
                            0 <= k < i + 1 && cells@[k]@.width == 2 && j < double_wide_capacity() && j
                                == concat_texts(models.take(k)).len();
                        if k < i {
                            assert(old_line.is_double_at(j));
                        }
                    }
                }
            }
            i = i + 1;
        }
        proof {
            assert(cell_models(cells@).take(cells@.len() as int) =~= cell_models(cells@));
        }
        line
    }

    /// The cells this line stands for: one per covered character, with the
    /// character as text, the run's attributes, and width 2 where marked
    /// double (else 1); a blank cell where the text has run out.
    pub fn to_cells(&self) -> (cells: Vec<Cell>)
        requires
            self.cell_count() < usize::MAX,
        ensures
            cell_models(cells@) == self.restored_cells(),
    {
        let mut cells: Vec<Cell> = Vec::new();
        let mut char_idx: usize = 0;
        let text_len = self.text.as_str().unicode_len();
        let mut k: usize = 0;
        let ghost all = expand_attrs(self.clusters@);
        proof {
            assert(self.clusters@.take(0) =~= Seq::<Cluster>::empty());
            assert(expand_attrs(Seq::<Cluster>::empty()) =~= Seq::<CellAttributes>::empty());
        }
        while k < self.clusters.len()
            invariant
                k <= self.clusters@.len(),
                all == expand_attrs(self.clusters@),
                all.len() == self.cell_count() < usize::MAX,
                text_len == self.text@.len(),
                char_idx == expand_attrs(self.clusters@.take(k as int)).len(),
                cells@.len() == char_idx,
                forall|j: int| 0 <= j < char_idx ==> #[trigger] cells@[j]@ == self.restored_cells()[j],
            decreases self.clusters@.len() - k,
        {
            let char_count = self.clusters[k].width() as usize;
            let attrs = self.clusters[k].attrs();
            proof {
                lemma_expand_take(self.clusters@, k as int);
                lemma_expand_prefix(self.clusters@, k + 1);
            }
            let ghost base = char_idx;
            let mut i: usize = 0;
            while i < char_count
                invariant
                    i <= char_count,
                    char_count == self.clusters@[k as int].cell_width,
                    *attrs == self.clusters@[k as int].attrs,
                    all == expand_attrs(self.clusters@),
                    all.len() == self.cell_count() < usize::MAX,
                    text_len == self.text@.len(),
                    k < self.clusters@.len(),
                    base == expand_attrs(self.clusters@.take(k as int)).len(),
                    expand_attrs(self.clusters@.take(k + 1)) == expand_attrs(self.clusters@.take(k as int))
                        + Seq::new(char_count as nat, |_i: int| *attrs),
                    expand_attrs(self.clusters@.take(k + 1)).len() <= all.len(),
                    forall|j: int|
                        0 <= j < expand_attrs(self.clusters@.take(k + 1)).len() ==> #[trigger] expand_attrs(
                            self.clusters@.take(k + 1),
                        )[j] == all[j],
                    char_idx == base + i,
                    cells@.len() == char_idx,
                    forall|j: int| 0 <= j < char_idx ==> #[trigger] cells@[j]@ == self.restored_cells()[j],
                decreases char_count - i,
            {
                proof {
                    assert(expand_attrs(self.clusters@.take(k + 1))[base + i] == *attrs);
                    assert(all[char_idx as int] == *attrs);
                }
                if char_idx < text_len {
                    let ch = self.text.as_str().get_char(char_idx);
                    let s = char_to_string(ch);
                    let dw = match &self.is_double_wide {
                        Some(b) => b.contains(char_idx),
                        None => false,
                    };
                    let width: u8 = if dw { 2 } else { 1 };
                    cells.push(Cell::new_with_attrs(s.as_str(), attrs.copy(), width));
                } else {
                    cells.push(Cell::blank_with_attrs(attrs.copy()));
                }
                char_idx = char_idx + 1;
                i = i + 1;
            }
            k = k + 1;
        }
        proof {
            assert(self.clusters@.take(k as int) =~= self.clusters@);
            assert(cell_models(cells@) =~= self.restored_cells());
        }
        cells
    }

    /// The text.
    pub fn text(&self) -> (s: &str)
        ensures
            s@ == self.text_view(),
    {
        self.text.as_str()
    }

    /// Whether a double-width mark set has been allocated.
    pub fn has_double_wide(&self) -> (r: bool)
        ensures
            r == self.has_double_set(),
    {
        self.is_double_wide.is_some()
    }

    /// The number of attribute runs.
    pub fn cluster_count(&self) -> (n: usize)
        ensures
            n == self.clusters_view().len(),
    {
        self.clusters.len()
    }

    /// The attribute runs.
    pub fn clusters(&self) -> (c: &[Cluster])
        ensures
            c@ == self.clusters_view(),
    {
        self.clusters.as_slice()
    }
}

/// Calls `String::capacity`. What it returns depends on the allocator; no
/// property of it is claimed.
#[verifier::external_body]
pub(crate) fn string_capacity(s: &String) -> usize {
    s.capacity()
}

/// Calls `Vec::capacity`. What it returns depends on the allocator; no
/// property of it is claimed.
#[verifier::external_body]
pub(crate) fn vec_capacity<T>(v: &Vec<T>) -> usize {
    v.capacity()
}

impl ClusteredLine {
    /// An estimate in bytes of the memory the line takes: its own size plus
    /// the reserved text, bit set and runs (the sum saturates).
    pub fn memory_usage(&self) -> (n: usize)
        ensures
            n >= core::mem::size_of::<ClusteredLine>(),
    {
        let mut total = core::mem::size_of::<ClusteredLine>();
        total = total.saturating_add(string_capacity(&self.text));
        match &self.is_double_wide {
            Some(b) => {
                total = total.saturating_add(core::mem::size_of_val(&**b));
            },
            None => {},
        }
        let cap = vec_capacity(&self.clusters);
        let size = core::mem::size_of::<Cluster>();
        let runs = if size == 0 {
            0
        } else if cap <= usize::MAX / size {
            proof {
                vstd::arithmetic::div_mod::lemma_fundamental_div_mod(usize::MAX as int, size as int);
                assert(cap * size <= (usize::MAX / size) * size) by (nonlinear_arith)
                    requires cap <= usize::MAX / size, size > 0;
            }
            cap * size
        } else {
            usize::MAX
        };
        total.saturating_add(runs)
    }
}

impl Default for ClusteredLine {
    fn default() -> (l: ClusteredLine)
        ensures
            l.wf(),
            l.text_view() == Seq::<char>::empty(),
            l.clusters_view() == Seq::<Cluster>::empty(),
            l.len_view() == 0,
            !l.has_double_set(),
    {
        ClusteredLine::new()
    }
}


/// Cells whose texts are single characters concatenate to the sequence of those characters.
proof fn lemma_concat_single_chars(cells: Seq<CellModel>)
    requires
        forall|i: int| 0 <= i < cells.len() ==> #[trigger] cells[i].text.len() == 1,
    ensures
        concat_texts(cells).len() == cells.len(),
        forall|j: int| 0 <= j < cells.len() ==> #[trigger] concat_texts(cells)[j] == cells[j].text[0],
    decreases cells.len(),
{
    if cells.len() > 0 {
        let init = cells.drop_last();
        assert forall|i: int| 0 <= i < init.len() implies #[trigger] init[i].text.len() == 1 by {
            assert(init[i] == cells[i]);
        }
        lemma_concat_single_chars(init);
        assert(cells.last() == cells[cells.len() - 1]);
        assert forall|j: int| 0 <= j < cells.len() implies #[trigger] concat_texts(cells)[j] == cells[j].text[0] by {
            if j < cells.len() - 1 {
                assert(init[j] == cells[j]);
            }
        }
    }
}

/// Round trip: a line built by `from_cells` from cells that each hold one
/// character, of width 1, or of width 2 at a position below the
/// double-width capacity, gives those same cells back through `to_cells`.
pub proof fn lemma_clustered_round_trip(cells: Seq<Cell>, line: ClusteredLine)
    requires
        forall|i: int| 0 <= i < cells.len() ==> (#[trigger] cells[i])@.text.len() == 1,
        forall|i: int|
            0 <= i < cells.len() ==> ((#[trigger] cells[i])@.width == 1 || (cells[i]@.width == 2 && i
                < double_wide_capacity())),
        line.text_view() == concat_texts(cell_models(cells)),
        expand_attrs(line.clusters_view()) == cell_models(cells).map_values(|c: CellModel| c.attrs),
        forall|j: int|
            #[trigger] line.is_double_at(j) == (exists|i: int|
                0 <= i < cells.len() && cells[i]@.width == 2 && j < double_wide_capacity() && j
                    == concat_texts(cell_models(cells).take(i)).len()),
    ensures
        line.restored_cells() == cell_models(cells),
{
    let models = cell_models(cells);
    assert forall|i: int| 0 <= i < models.len() implies #[trigger] models[i].text.len() == 1 by {
        assert(models[i] == cells[i]@);
    }
    lemma_concat_single_chars(models);
    assert forall|i: int| 0 <= i <= models.len() implies #[trigger] concat_texts(models.take(i)).len() == i by {
        let t = models.take(i);
        assert forall|k: int| 0 <= k < t.len() implies #[trigger] t[k].text.len() == 1 by {
            assert(t[k] == models[k]);
        }
        lemma_concat_single_chars(t);
    }
    assert forall|j: int| 0 <= j < models.len() implies #[trigger] line.restored_cells()[j] == models[j] by {
        assert(models[j] == cells[j]@);
        assert(concat_texts(models.take(j)).len() == j);
        let dw = line.is_double_at(j);
        if cells[j]@.width == 2 {
            assert(dw);
        } else if dw {
            let i = choose|i: int|
                0 <= i < cells.len() && cells[i]@.width == 2 && j < double_wide_capacity() && j
                    == concat_texts(models.take(i)).len();
            assert(concat_texts(models.take(i)).len() == i);
        }
        assert(seq![line.text_view()[j]] =~= models[j].text);
    }
    assert(line.restored_cells() =~= models);
}

} // verus!
