//! A cluster: a run of characters sharing the same attributes, the unit of
//! compression of a `ClusteredLine`.
use vstd::prelude::*;

use super::attributes::CellAttributes;

verus! {

/// A run of `cell_width` characters with attributes `attrs`.
#[derive(Debug, Clone, PartialEq, Eq, Structural)]
pub struct Cluster {
    /// Number of characters in the run.
    pub cell_width: u16,
    /// Their attributes.
    pub attrs: CellAttributes,
}

impl Cluster {
    /// A run of `cell_width` characters with attributes `attrs`.
    pub fn new(cell_width: u16, attrs: CellAttributes) -> (c: Cluster)
        ensures
            c == (Cluster { cell_width, attrs }),
    {
        Cluster { cell_width, attrs }
    }

    /// The length of the run.
    pub fn width(&self) -> (w: u16)
        ensures
            w == self.cell_width,
    {
        self.cell_width
    }

    /// The attributes.
    pub fn attrs(&self) -> (a: &CellAttributes)
        ensures
            *a == self.attrs,
    {
        &self.attrs
    }

    /// The attributes, for update in place.
    pub fn attrs_mut(&mut self) -> (a: &mut CellAttributes)
        ensures
            *a == old(self).attrs,
            *final(self) == (Cluster { attrs: *final(a), ..*old(self) }),
    {
        &mut self.attrs
    }

    /// Sets the attributes.
    pub fn set_attrs(&mut self, attrs: CellAttributes)
        ensures
            *final(self) == (Cluster { attrs, ..*old(self) }),
    {
        self.attrs = attrs;
    }

    /// Lengthens the run by `width`.
    pub fn add_width(&mut self, width: u16)
        requires
            old(self).cell_width + width <= u16::MAX,
        ensures
            *final(self) == (Cluster { cell_width: (old(self).cell_width + width) as u16, ..*old(self) }),
    {
        self.cell_width = self.cell_width + width;
    }

    /// Whether `other` has the same attributes, so the two runs can merge.
    pub fn can_merge(&self, other: &Cluster) -> (r: bool)
        ensures
            r == (self.attrs == other.attrs),
    {
        self.attrs.equals(&other.attrs)
    }

    /// Appends the run `other`, which must have the same attributes.
    pub fn merge(&mut self, other: &Cluster)
        requires
            old(self).attrs == other.attrs,
            old(self).cell_width + other.cell_width <= u16::MAX,
        ensures
            *final(self) == (Cluster {
                cell_width: (old(self).cell_width + other.cell_width) as u16,
                ..*old(self)
            }),
    {
        self.cell_width = self.cell_width + other.cell_width;
    }
}

} // verus!
