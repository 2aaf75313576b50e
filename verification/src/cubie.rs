//! The per-piece state: cubicles (slots), orientations, and cubies.
//!
//! A *cubicle* is one of the 8 corner slots or 12 edge slots of the cube.
//! A piece is said to "live" in a cubicle if it sits there when the cube is
//! solved; that cubicle is the piece's *home*. A [`CornerCubie`] or
//! [`EdgeCubie`] pairs the cubicle a piece currently occupies with the
//! piece's current orientation.
//!
//! Corner cubicle numbering goes through the top layer row by row (0-3),
//! then the bottom layer (4-7). Edge cubicle numbering: 0-3 are the top
//! edges, 4-7 the four equatorial edges, 8-11 the bottom edges.
//!
//! A corner orientation is a twist modulo 3, an edge orientation a flip
//! modulo 2. Orientations form a commutative group under `add`, with
//! orientation 0 as the identity and `inverse` as the group inverse.

use vstd::prelude::*;

verus! {

/// One of the 8 corner slots of the cube.
#[derive(Debug, Copy, Clone, Eq, PartialEq, Structural)]
pub enum CornerCubicle {
    C0,
    C1,
    C2,
    C3,
    C4,
    C5,
    C6,
    C7,
}

impl CornerCubicle {
    /// The number of this cubicle in the fixed numbering scheme.
    pub open spec fn idx(self) -> int {
        match self {
            CornerCubicle::C0 => 0,
            CornerCubicle::C1 => 1,
            CornerCubicle::C2 => 2,
            CornerCubicle::C3 => 3,
            CornerCubicle::C4 => 4,
            CornerCubicle::C5 => 5,
            CornerCubicle::C6 => 6,
            CornerCubicle::C7 => 7,
        }
    }

    /// The cubicle with the given number.
    pub open spec fn from_idx(i: int) -> CornerCubicle {
        if i == 0 {
            CornerCubicle::C0
        } else if i == 1 {
            CornerCubicle::C1
        } else if i == 2 {
            CornerCubicle::C2
        } else if i == 3 {
            CornerCubicle::C3
        } else if i == 4 {
            CornerCubicle::C4
        } else if i == 5 {
            CornerCubicle::C5
        } else if i == 6 {
            CornerCubicle::C6
        } else {
            CornerCubicle::C7
        }
    }

    /// The number of this cubicle, as a machine integer.
    pub fn index(self) -> (r: usize)
        ensures
            r == self.idx(),
    {
        match self {
            CornerCubicle::C0 => 0,
            CornerCubicle::C1 => 1,
            CornerCubicle::C2 => 2,
            CornerCubicle::C3 => 3,
            CornerCubicle::C4 => 4,
            CornerCubicle::C5 => 5,
            CornerCubicle::C6 => 6,
            CornerCubicle::C7 => 7,
        }
    }

    /// The cubicle with the given number.
    pub fn from_index(i: usize) -> (r: Self)
        requires
            i < 8,
        ensures
            r == Self::from_idx(i as int),
            r.idx() == i,
    {
        match i {
            0 => CornerCubicle::C0,
            1 => CornerCubicle::C1,
            2 => CornerCubicle::C2,
            3 => CornerCubicle::C3,
            4 => CornerCubicle::C4,
            5 => CornerCubicle::C5,
            6 => CornerCubicle::C6,
            _ => CornerCubicle::C7,
        }
    }

    /// Every corner cubicle, in numbering order.
    pub fn all() -> (r: Vec<CornerCubicle>)
        ensures
            r@.len() == 8,
            forall|i: int| 0 <= i < 8 ==> (#[trigger] r@[i]).idx() == i,
    {
        let v = vec![
            CornerCubicle::C0,
            CornerCubicle::C1,
            CornerCubicle::C2,
            CornerCubicle::C3,
            CornerCubicle::C4,
            CornerCubicle::C5,
            CornerCubicle::C6,
            CornerCubicle::C7,
        ];
        assert(forall|i: int| 0 <= i < 8 ==> (#[trigger] v@[i]).idx() == i);
        v
    }
}

/// Round-trip of the corner cubicle numbering.
pub broadcast proof fn lemma_corner_cubicle_idx(c: CornerCubicle)
    ensures
        0 <= #[trigger] c.idx() < 8,
        CornerCubicle::from_idx(c.idx()) == c,
{
}

/// The twist of a corner piece relative to its solved orientation,
/// counted modulo 3.
#[derive(Debug, Copy, Clone, Eq, PartialEq, Structural)]
pub enum CornerOrientation {
    /// No twist
    O0,
    /// Clockwise twist
    O1,
    /// Counterclockwise twist
    O2,
}

impl CornerOrientation {
    /// The twist count of this orientation.
    pub open spec fn idx(self) -> int {
        match self {
            CornerOrientation::O0 => 0,
            CornerOrientation::O1 => 1,
            CornerOrientation::O2 => 2,
        }
    }

    /// The orientation with the given twist count.
    pub open spec fn from_idx(i: int) -> CornerOrientation {
        if i == 0 {
            CornerOrientation::O0
        } else if i == 1 {
            CornerOrientation::O1
        } else {
            CornerOrientation::O2
        }
    }

    /// The twist count of this orientation, as a machine integer.
    pub fn index(self) -> (r: usize)
        ensures
            r == self.idx(),
    {
        match self {
            CornerOrientation::O0 => 0,
            CornerOrientation::O1 => 1,
            CornerOrientation::O2 => 2,
        }
    }

    /// The orientation with the given twist count.
    pub fn from_index(i: usize) -> (r: Self)
        requires
            i < 3,
        ensures
            r == Self::from_idx(i as int),
            r.idx() == i,
    {
        match i {
            0 => CornerOrientation::O0,
            1 => CornerOrientation::O1,
            _ => CornerOrientation::O2,
        }
    }

    /// Every corner orientation, in twist order.
    pub fn all() -> (r: Vec<CornerOrientation>)
        ensures
            r@.len() == 3,
            forall|i: int| 0 <= i < 3 ==> (#[trigger] r@[i]).idx() == i,
    {
        let v = vec![CornerOrientation::O0, CornerOrientation::O1, CornerOrientation::O2];
        assert(forall|i: int| 0 <= i < 3 ==> (#[trigger] v@[i]).idx() == i);
        v
    }

    /// The identity orientation: every piece of a solved cube has it.
    pub fn zero() -> (r: Self)
        ensures
            r.idx() == 0,
    {
        CornerOrientation::O0
    }

    /// The orientation that, added to `self`, yields the identity.
    pub fn inverse(self) -> (r: Self)
        ensures
            r.idx() == (3 - self.idx()) % 3,
            (self.idx() + r.idx()) % 3 == 0,
    {
        match self {
            CornerOrientation::O0 => CornerOrientation::O0,
            CornerOrientation::O1 => CornerOrientation::O2,
            CornerOrientation::O2 => CornerOrientation::O1,
        }
    }

    /// Combines two twists: the twist counts add modulo 3.
    pub fn add(self, rhs: Self) -> (r: Self)
        ensures
            r.idx() == (self.idx() + rhs.idx()) % 3,
            r == Self::from_idx((self.idx() + rhs.idx()) % 3),
    {
        let i = self.index() + rhs.index();
        Self::from_index(i % 3)
    }
}

/// Round-trip of the corner orientation numbering.
pub broadcast proof fn lemma_corner_orientation_idx(o: CornerOrientation)
    ensures
        0 <= #[trigger] o.idx() < 3,
        CornerOrientation::from_idx(o.idx()) == o,
{
}

/// Permutation + orientation of a single corner piece: the cubicle the
/// piece currently occupies, and its current twist.
#[derive(Debug, Copy, Clone, Eq, PartialEq, Structural)]
pub struct CornerCubie {
    pub c: CornerCubicle,
    pub o: CornerOrientation,
}

impl CornerCubie {
    /// Pairs a cubicle with an orientation. Total: every pair is valid,
    /// and `cubicle`/`orientation` recover exactly the two arguments.
    pub fn new(c: CornerCubicle, o: CornerOrientation) -> (r: Self)
        ensures
            r.c == c,
            r.o == o,
    {
        CornerCubie { c, o }
    }

    /// The cubicle this piece currently occupies.
    pub fn cubicle(self) -> (r: CornerCubicle)
        ensures
            r == self.c,
    {
        self.c
    }

    /// The current orientation of this piece.
    pub fn orientation(self) -> (r: CornerOrientation)
        ensures
            r == self.o,
    {
        self.o
    }

    /// Replaces the orientation, leaving the cubicle untouched.
    pub fn set_orientation(&mut self, o: CornerOrientation)
        ensures
            final(self).c == old(self).c,
            final(self).o == o,
    {
        self.o = o;
    }

    /// Replaces the cubicle, leaving the orientation untouched.
    pub fn set_cubicle(&mut self, c: CornerCubicle)
        ensures
            final(self).c == c,
            final(self).o == old(self).o,
    {
        self.c = c;
    }
}

/// One of the 12 edge slots of the cube.
#[derive(Debug, Copy, Clone, Eq, PartialEq, Structural)]
pub enum EdgeCubicle {
    C0,
    C1,
    C2,
    C3,
    C4,
    C5,
    C6,
    C7,
    C8,
    C9,
    C10,
    C11,
}

impl EdgeCubicle {
    /// The number of this cubicle in the fixed numbering scheme.
    pub open spec fn idx(self) -> int {
        match self {
            EdgeCubicle::C0 => 0,
            EdgeCubicle::C1 => 1,
            EdgeCubicle::C2 => 2,
            EdgeCubicle::C3 => 3,
            EdgeCubicle::C4 => 4,
            EdgeCubicle::C5 => 5,
            EdgeCubicle::C6 => 6,
            EdgeCubicle::C7 => 7,
            EdgeCubicle::C8 => 8,
            EdgeCubicle::C9 => 9,
            EdgeCubicle::C10 => 10,
            EdgeCubicle::C11 => 11,
        }
    }

    /// The cubicle with the given number.
    pub open spec fn from_idx(i: int) -> EdgeCubicle {
        if i == 0 {
            EdgeCubicle::C0
        } else if i == 1 {
            EdgeCubicle::C1
        } else if i == 2 {
            EdgeCubicle::C2
        } else if i == 3 {
            EdgeCubicle::C3
        } else if i == 4 {
            EdgeCubicle::C4
        } else if i == 5 {
            EdgeCubicle::C5
        } else if i == 6 {
            EdgeCubicle::C6
        } else if i == 7 {
            EdgeCubicle::C7
        } else if i == 8 {
            EdgeCubicle::C8
        } else if i == 9 {
            EdgeCubicle::C9
        } else if i == 10 {
            EdgeCubicle::C10
        } else {
            EdgeCubicle::C11
        }
    }

    /// The number of this cubicle, as a machine integer.
    pub fn index(self) -> (r: usize)
        ensures
            r == self.idx(),
    {
        match self {
            EdgeCubicle::C0 => 0,
            EdgeCubicle::C1 => 1,
            EdgeCubicle::C2 => 2,
            EdgeCubicle::C3 => 3,
            EdgeCubicle::C4 => 4,
            EdgeCubicle::C5 => 5,
            EdgeCubicle::C6 => 6,
            EdgeCubicle::C7 => 7,
            EdgeCubicle::C8 => 8,
            EdgeCubicle::C9 => 9,
            EdgeCubicle::C10 => 10,
            EdgeCubicle::C11 => 11,
        }
    }

    /// The cubicle with the given number.
    pub fn from_index(i: usize) -> (r: Self)
        requires
            i < 12,
        ensures
            r == Self::from_idx(i as int),
            r.idx() == i,
    {
        match i {
            0 => EdgeCubicle::C0,
            1 => EdgeCubicle::C1,
            2 => EdgeCubicle::C2,
            3 => EdgeCubicle::C3,
            4 => EdgeCubicle::C4,
            5 => EdgeCubicle::C5,
            6 => EdgeCubicle::C6,
            7 => EdgeCubicle::C7,
            8 => EdgeCubicle::C8,
            9 => EdgeCubicle::C9,
            10 => EdgeCubicle::C10,
            _ => EdgeCubicle::C11,
        }
    }

    /// Every edge cubicle, in numbering order.
    pub fn all() -> (r: Vec<EdgeCubicle>)
        ensures
            r@.len() == 12,
            forall|i: int| 0 <= i < 12 ==> (#[trigger] r@[i]).idx() == i,
    {
        let v = vec![
            EdgeCubicle::C0,
            EdgeCubicle::C1,
            EdgeCubicle::C2,
            EdgeCubicle::C3,
            EdgeCubicle::C4,
            EdgeCubicle::C5,
            EdgeCubicle::C6,
            EdgeCubicle::C7,
            EdgeCubicle::C8,
            EdgeCubicle::C9,
            EdgeCubicle::C10,
            EdgeCubicle::C11,
        ];
        assert(forall|i: int| 0 <= i < 12 ==> (#[trigger] v@[i]).idx() == i);
        v
    }
}

/// Round-trip of the edge cubicle numbering.
pub broadcast proof fn lemma_edge_cubicle_idx(c: EdgeCubicle)
    ensures
        0 <= #[trigger] c.idx() < 12,
        EdgeCubicle::from_idx(c.idx()) == c,
{
}

/// The flip of an edge piece relative to its solved orientation,
/// counted modulo 2.
#[derive(Debug, Copy, Clone, Eq, PartialEq, Structural)]
pub enum EdgeOrientation {
    /// Not flipped
    O0,
    /// Flipped
    O1,
}

impl EdgeOrientation {
    /// The flip count of this orientation.
    pub open spec fn idx(self) -> int {
        match self {
            EdgeOrientation::O0 => 0,
            EdgeOrientation::O1 => 1,
        }
    }

    /// The orientation with the given flip count.
    pub open spec fn from_idx(i: int) -> EdgeOrientation {
        if i == 0 {
            EdgeOrientation::O0
        } else {
            EdgeOrientation::O1
        }
    }

    /// The flip count of this orientation, as a machine integer.
    pub fn index(self) -> (r: usize)
        ensures
            r == self.idx(),
    {
        match self {
            EdgeOrientation::O0 => 0,
            EdgeOrientation::O1 => 1,
        }
    }

    /// The orientation with the given flip count.
    pub fn from_index(i: usize) -> (r: Self)
        requires
            i < 2,
        ensures
            r == Self::from_idx(i as int),
            r.idx() == i,
    {
        match i {
            0 => EdgeOrientation::O0,
            _ => EdgeOrientation::O1,
        }
    }

    /// Every edge orientation, in flip order.
    pub fn all() -> (r: Vec<EdgeOrientation>)
        ensures
            r@.len() == 2,
            forall|i: int| 0 <= i < 2 ==> (#[trigger] r@[i]).idx() == i,
    {
        let v = vec![EdgeOrientation::O0, EdgeOrientation::O1];
        assert(forall|i: int| 0 <= i < 2 ==> (#[trigger] v@[i]).idx() == i);
        v
    }

    /// The identity orientation: every piece of a solved cube has it.
    pub fn zero() -> (r: Self)
        ensures
            r.idx() == 0,
    {
        EdgeOrientation::O0
    }

    /// The orientation that, added to `self`, yields the identity.
    /// Edge orientations are their own inverses: flipping a flipped edge
    /// flips it back, and not flipping an unflipped edge leaves it alone.
    pub fn inverse(self) -> (r: Self)
        ensures
            r.idx() == (2 - self.idx()) % 2,
            (self.idx() + r.idx()) % 2 == 0,
            r == self,
    {
        self
    }

    /// Combines two flips: the flip counts add modulo 2.
    pub fn add(self, rhs: Self) -> (r: Self)
        ensures
            r.idx() == (self.idx() + rhs.idx()) % 2,
            r == Self::from_idx((self.idx() + rhs.idx()) % 2),
    {
        let i = self.index() + rhs.index();
        Self::from_index(i % 2)
    }
}

/// Round-trip of the edge orientation numbering.
pub broadcast proof fn lemma_edge_orientation_idx(o: EdgeOrientation)
    ensures
        0 <= #[trigger] o.idx() < 2,
        EdgeOrientation::from_idx(o.idx()) == o,
{
}

/// Permutation + orientation of a single edge piece: the cubicle the
/// piece currently occupies, and its current flip.
#[derive(Debug, Copy, Clone, Eq, PartialEq, Structural)]
pub struct EdgeCubie {
    pub c: EdgeCubicle,
    pub o: EdgeOrientation,
}

impl EdgeCubie {
    /// Pairs a cubicle with an orientation. Total: every pair is valid,
    /// and `cubicle`/`orientation` recover exactly the two arguments.
    pub fn new(c: EdgeCubicle, o: EdgeOrientation) -> (r: Self)
        ensures
            r.c == c,
            r.o == o,
    {
        EdgeCubie { c, o }
    }

    /// The cubicle this piece currently occupies.
    pub fn cubicle(self) -> (r: EdgeCubicle)
        ensures
            r == self.c,
    {
        self.c
    }

    /// The current orientation of this piece.
    pub fn orientation(self) -> (r: EdgeOrientation)
        ensures
            r == self.o,
    {
        self.o
    }

    /// Replaces the orientation, leaving the cubicle untouched.
    pub fn set_orientation(&mut self, o: EdgeOrientation)
        ensures
            final(self).c == old(self).c,
            final(self).o == o,
    {
        self.o = o;
    }

    /// Replaces the cubicle, leaving the orientation untouched.
    pub fn set_cubicle(&mut self, c: EdgeCubicle)
        ensures
            final(self).c == c,
            final(self).o == old(self).o,
    {
        self.c = c;
    }
}

/// Wrapper around `[T; N]` that the cube types index by a cubicle's number
/// instead of a raw `usize`.
#[derive(Debug, Copy, Clone, Eq, PartialEq)]
pub struct CubicleArray<T, const N: usize>(pub [T; N]);

impl<T, const N: usize> View for CubicleArray<T, N> {
    type V = Seq<T>;

    open spec fn view(&self) -> Seq<T> {
        self.0@
    }
}

impl<T: Copy, const N: usize> CubicleArray<T, N> {
    pub fn new(items: [T; N]) -> (r: Self)
        ensures
            r@ == items@,
    {
        CubicleArray(items)
    }

    /// The item at position `i`.
    pub fn get(&self, i: usize) -> (r: &T)
        requires
            i < N,
        ensures
            *r == self@[i as int],
    {
        &self.0[i]
    }

    /// Replaces the item at position `i`.
    pub fn set(&mut self, i: usize, t: T)
        requires
            i < N,
        ensures
            final(self)@ == old(self)@.update(i as int, t),
    {
        self.0[i] = t;
    }

    /// Swaps the items at the given positions.
    pub fn swap(&mut self, a: usize, b: usize)
        requires
            a < N,
            b < N,
        ensures
            final(self)@ == old(self)@.update(a as int, old(self)@[b as int]).update(
                b as int,
                old(self)@[a as int],
            ),
    {
        let ta = self.0[a];
        let tb = self.0[b];
        self.0[a] = tb;
        self.0[b] = ta;
    }
}

/// The 8 corner slots of a cube, indexed by home cubicle number.
pub type Corners = CubicleArray<CornerCubie, 8>;

/// The 12 edge slots of a cube, indexed by home cubicle number.
pub type Edges = CubicleArray<EdgeCubie, 12>;

/// The abstract `(cubicle, orientation)` view of a bank of corner slots,
/// in the numbering of [`crate::algebra`].
pub open spec fn corner_bank_states(s: Seq<CornerCubie>) -> Seq<(int, int)> {
    Seq::new(s.len(), |h: int| (s[h].c.idx(), s[h].o.idx()))
}

/// The abstract `(cubicle, orientation)` view of a bank of edge slots,
/// in the numbering of [`crate::algebra`].
pub open spec fn edge_bank_states(s: Seq<EdgeCubie>) -> Seq<(int, int)> {
    Seq::new(s.len(), |h: int| (s[h].c.idx(), s[h].o.idx()))
}

} // verus!
