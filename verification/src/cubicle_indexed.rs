//! Array types that are indexed by cubicles instead of `usize`.

use vstd::prelude::*;
use crate::cubie::{CornerCubicle, EdgeCubicle};

verus! {

/// Newtype wrapper around `[T; 8]` indexed by a [`CornerCubicle`].
#[derive(Debug, Copy, Clone, Eq, PartialEq)]
pub struct CornerCubicleIndexed<T>(pub [T; 8]);

impl<T> View for CornerCubicleIndexed<T> {
    type V = Seq<T>;

    open spec fn view(&self) -> Seq<T> {
        self.0@
    }
}

impl<T: Copy> CornerCubicleIndexed<T> {
    pub fn new(array: [T; 8]) -> (r: Self)
        ensures
            r@ == array@,
    {
        CornerCubicleIndexed(array)
    }

    /// The item of the given cubicle.
    pub fn get(&self, c: CornerCubicle) -> (r: T)
        ensures
            r == self@[c.idx()],
    {
        proof {
            crate::cubie::lemma_corner_cubicle_idx(c);
        }
        self.0[c.index()]
    }

    /// Swaps the items of the given cubicles.
    pub fn swap(&mut self, a: CornerCubicle, b: CornerCubicle)
        ensures
            final(self)@ == old(self)@.update(a.idx(), old(self)@[b.idx()]).update(
                b.idx(),
                old(self)@[a.idx()],
            ),
    {
        proof {
            crate::cubie::lemma_corner_cubicle_idx(a);
            crate::cubie::lemma_corner_cubicle_idx(b);
        }
        let ai = a.index();
        let bi = b.index();
        let ta = self.0[ai];
        let tb = self.0[bi];
        self.0[ai] = tb;
        self.0[bi] = ta;
    }
}

/// Newtype wrapper around `[T; 12]` indexed by an [`EdgeCubicle`].
#[derive(Debug, Copy, Clone, Eq, PartialEq)]
pub struct EdgeCubicleIndexed<T>(pub [T; 12]);

impl<T> View for EdgeCubicleIndexed<T> {
    type V = Seq<T>;

    open spec fn view(&self) -> Seq<T> {
        self.0@
    }
}

impl<T: Copy> EdgeCubicleIndexed<T> {
    pub fn new(array: [T; 12]) -> (r: Self)
        ensures
            r@ == array@,
    {
        EdgeCubicleIndexed(array)
    }

    /// The item of the given cubicle.
    pub fn get(&self, c: EdgeCubicle) -> (r: T)
        ensures
            r == self@[c.idx()],
    {
        proof {
            crate::cubie::lemma_edge_cubicle_idx(c);
        }
        self.0[c.index()]
    }

    /// Swaps the items of the given cubicles.
    pub fn swap(&mut self, a: EdgeCubicle, b: EdgeCubicle)
        ensures
            final(self)@ == old(self)@.update(a.idx(), old(self)@[b.idx()]).update(
                b.idx(),
                old(self)@[a.idx()],
            ),
    {
        proof {
            crate::cubie::lemma_edge_cubicle_idx(a);
            crate::cubie::lemma_edge_cubicle_idx(b);
        }
        let ai = a.index();
        let bi = b.index();
        let ta = self.0[ai];
        let tb = self.0[bi];
        self.0[ai] = tb;
        self.0[bi] = ta;
    }
}

} // verus!
