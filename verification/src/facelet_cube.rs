//! The 54-sticker facelet form of a cube, and the lossless conversions
//! to and from [`CubieCube`].
//!
//! A [`FaceletCube`] is six faces of nine colored stickers each. Within a
//! face the stickers are numbered row by row, 0 to 8, with 4 always the
//! center. The six colors double as face names: face `f` is the face
//! whose center has color `f`.
//!
//! Converting a cube to facelets writes, for every piece, its home's
//! fixed color tuple — rotated by the piece's current orientation — into
//! the sticker slots of the cubicle the piece currently occupies.
//! Converting back is a search: orientation is not directly observable,
//! so for every home piece the decoder scans all orientations and all
//! cubicles for a sticker tuple matching the home's rotated colors, and
//! fails with a not-found error when no cubicle matches.

use vstd::prelude::*;
use crate::cubie::{
    corner_bank_states, edge_bank_states, CornerCubicle, CornerCubie, CornerOrientation,
    CubicleArray, EdgeCubicle, EdgeCubie, EdgeOrientation,
};
use crate::cubie_cube::{CubieCube, CubieCubeConstructionError};
use crate::algebra::perm_of;

verus! {

broadcast use
    crate::cubie::lemma_corner_cubicle_idx,
    crate::cubie::lemma_corner_orientation_idx,
    crate::cubie::lemma_edge_cubicle_idx,
    crate::cubie::lemma_edge_orientation_idx,
;

/// One of the six sticker colors; also names the face whose center has
/// that color.
#[derive(Debug, Copy, Clone, Eq, PartialEq, Hash, Structural)]
pub enum Color {
    Orange,
    Red,
    Yellow,
    White,
    Green,
    Blue,
}

impl Color {
    /// The number of this color in the fixed face order.
    pub open spec fn idx(self) -> int {
        match self {
            Color::Orange => 0,
            Color::Red => 1,
            Color::Yellow => 2,
            Color::White => 3,
            Color::Green => 4,
            Color::Blue => 5,
        }
    }

    /// The color with the given number.
    pub open spec fn from_idx(i: int) -> Color {
        if i == 0 {
            Color::Orange
        } else if i == 1 {
            Color::Red
        } else if i == 2 {
            Color::Yellow
        } else if i == 3 {
            Color::White
        } else if i == 4 {
            Color::Green
        } else {
            Color::Blue
        }
    }

    /// The number of this color, as a machine integer.
    pub fn index(self) -> (r: usize)
        ensures
            r == self.idx(),
    {
        match self {
            Color::Orange => 0,
            Color::Red => 1,
            Color::Yellow => 2,
            Color::White => 3,
            Color::Green => 4,
            Color::Blue => 5,
        }
    }

    /// Every color, in face order.
    pub fn all() -> (r: Vec<Color>)
        ensures
            r@.len() == 6,
            forall|i: int| 0 <= i < 6 ==> (#[trigger] r@[i]).idx() == i,
    {
        let v = vec![Color::Orange, Color::Red, Color::Yellow, Color::White, Color::Green,
            Color::Blue];
        assert(forall|i: int| 0 <= i < 6 ==> (#[trigger] v@[i]).idx() == i);
        v
    }
}

/// Round-trip of the color numbering.
pub broadcast proof fn lemma_color_idx(c: Color)
    ensures
        0 <= #[trigger] c.idx() < 6,
        Color::from_idx(c.idx()) == c,
{
}

/// Color `s` of the corner piece whose home is cubicle `h`, starting on
/// the up/down face and going around the piece clockwise.
pub open spec fn corner_color(h: int, s: int) -> Color {
    if h == 0 {
        if s == 0 { Color::White } else if s == 1 { Color::Orange } else { Color::Blue }
    } else if h == 1 {
        if s == 0 { Color::White } else if s == 1 { Color::Blue } else { Color::Red }
    } else if h == 2 {
        if s == 0 { Color::White } else if s == 1 { Color::Green } else { Color::Orange }
    } else if h == 3 {
        if s == 0 { Color::White } else if s == 1 { Color::Red } else { Color::Green }
    } else if h == 4 {
        if s == 0 { Color::Yellow } else if s == 1 { Color::Blue } else { Color::Orange }
    } else if h == 5 {
        if s == 0 { Color::Yellow } else if s == 1 { Color::Red } else { Color::Blue }
    } else if h == 6 {
        if s == 0 { Color::Yellow } else if s == 1 { Color::Orange } else { Color::Green }
    } else {
        if s == 0 { Color::Yellow } else if s == 1 { Color::Green } else { Color::Red }
    }
}

/// Sticker index, within its face, of color `s` of the corner piece of
/// cubicle `h` when the cube is solved.
pub open spec fn corner_fidx(h: int, s: int) -> int {
    if h == 0 {
        if s == 0 { 0 } else if s == 1 { 0 } else { 2 }
    } else if h == 1 {
        if s == 0 { 2 } else if s == 1 { 0 } else { 2 }
    } else if h == 2 {
        if s == 0 { 6 } else if s == 1 { 0 } else { 2 }
    } else if h == 3 {
        if s == 0 { 8 } else if s == 1 { 0 } else { 2 }
    } else if h == 4 {
        if s == 0 { 6 } else if s == 1 { 8 } else { 6 }
    } else if h == 5 {
        if s == 0 { 8 } else if s == 1 { 8 } else { 6 }
    } else if h == 6 {
        if s == 0 { 0 } else if s == 1 { 8 } else { 6 }
    } else {
        if s == 0 { 2 } else if s == 1 { 8 } else { 6 }
    }
}

/// Color `s` of the edge piece whose home is cubicle `h`, starting with
/// the up/down or front/back face.
pub open spec fn edge_color(h: int, s: int) -> Color {
    if h == 0 {
        if s == 0 { Color::White } else { Color::Blue }
    } else if h == 1 {
        if s == 0 { Color::White } else { Color::Orange }
    } else if h == 2 {
        if s == 0 { Color::White } else { Color::Red }
    } else if h == 3 {
        if s == 0 { Color::White } else { Color::Green }
    } else if h == 4 {
        if s == 0 { Color::Blue } else { Color::Orange }
    } else if h == 5 {
        if s == 0 { Color::Blue } else { Color::Red }
    } else if h == 6 {
        if s == 0 { Color::Green } else { Color::Orange }
    } else if h == 7 {
        if s == 0 { Color::Green } else { Color::Red }
    } else if h == 8 {
        if s == 0 { Color::Yellow } else { Color::Blue }
    } else if h == 9 {
        if s == 0 { Color::Yellow } else { Color::Orange }
    } else if h == 10 {
        if s == 0 { Color::Yellow } else { Color::Red }
    } else {
        if s == 0 { Color::Yellow } else { Color::Green }
    }
}

/// Sticker index, within its face, of color `s` of the edge piece of
/// cubicle `h` when the cube is solved.
pub open spec fn edge_fidx(h: int, s: int) -> int {
    if h == 0 {
        if s == 0 { 1 } else { 1 }
    } else if h == 1 {
        if s == 0 { 3 } else { 1 }
    } else if h == 2 {
        if s == 0 { 5 } else { 1 }
    } else if h == 3 {
        if s == 0 { 7 } else { 1 }
    } else if h == 4 {
        if s == 0 { 5 } else { 3 }
    } else if h == 5 {
        if s == 0 { 3 } else { 5 }
    } else if h == 6 {
        if s == 0 { 3 } else { 5 }
    } else if h == 7 {
        if s == 0 { 5 } else { 3 }
    } else if h == 8 {
        if s == 0 { 7 } else { 7 }
    } else if h == 9 {
        if s == 0 { 3 } else { 7 }
    } else if h == 10 {
        if s == 0 { 5 } else { 7 }
    } else {
        if s == 0 { 1 } else { 7 }
    }
}

/// The flat sticker slot (face number times 9, plus index) of color `s`
/// of the corner piece of cubicle `c`.
pub open spec fn corner_slot(c: int, s: int) -> int {
    corner_color(c, s).idx() * 9 + corner_fidx(c, s)
}

/// The flat sticker slot of color `s` of the edge piece of cubicle `c`.
pub open spec fn edge_slot(c: int, s: int) -> int {
    edge_color(c, s).idx() * 9 + edge_fidx(c, s)
}

/// The 24 corner sticker slots are pairwise distinct, in the valid range,
/// and never a center slot.
proof fn lemma_corner_slots(c1: int, s1: int, c2: int, s2: int)
    requires
        0 <= c1 < 8,
        0 <= s1 < 3,
        0 <= c2 < 8,
        0 <= s2 < 3,
    ensures
        0 <= corner_slot(c1, s1) < 54,
        corner_slot(c1, s1) % 9 != 4,
        (c1 != c2 || s1 != s2) ==> corner_slot(c1, s1) != corner_slot(c2, s2),
{
}

/// The 24 edge sticker slots are pairwise distinct, in the valid range,
/// never a center slot, and never a corner slot.
proof fn lemma_edge_slots(c1: int, s1: int, c2: int, s2: int)
    requires
        0 <= c1 < 12,
        0 <= s1 < 2,
        0 <= c2 < 12,
        0 <= s2 < 2,
    ensures
        0 <= edge_slot(c1, s1) < 54,
        edge_slot(c1, s1) % 9 != 4,
        (c1 != c2 || s1 != s2) ==> edge_slot(c1, s1) != edge_slot(c2, s2),
        forall|cc: int, cs: int|
            0 <= cc < 8 && 0 <= cs < 3 ==> edge_slot(c1, s1) != #[trigger] corner_slot(cc, cs),
{
}

/// `faces` is the sticker rendering of `cube`: every piece's home color
/// tuple, rotated by the piece's current orientation, sits in the
/// sticker slots of the cubicle the piece currently occupies, and every
/// center keeps its face color.
pub open spec fn renders(faces: Seq<Color>, cube: CubieCube) -> bool {
    &&& forall|h: int, s: int|
        0 <= h < 8 && 0 <= s < 3 ==> faces[#[trigger] corner_slot(cube.corner_states()[h].0, s)]
            == corner_color(h, (s + 3 - cube.corner_states()[h].1) % 3)
    &&& forall|h: int, s: int|
        0 <= h < 12 && 0 <= s < 2 ==> faces[#[trigger] edge_slot(cube.edge_states()[h].0, s)]
            == edge_color(h, (s + 2 - cube.edge_states()[h].1) % 2)
    &&& forall|f: int| 0 <= f < 6 ==> #[trigger] faces[f * 9 + 4] == Color::from_idx(f)
}

/// A cube as an array of 6 faces of 9 stickers, stored flat: sticker `i`
/// of face `f` is entry `f * 9 + i`.
#[derive(Debug, Copy, Clone, Eq, PartialEq)]
pub struct FaceletCube {
    pub faces: [Color; 54],
}

/// The error of [`FaceletCube::to_cubie_cube`].
#[derive(Debug, Copy, Clone, Eq, PartialEq, Structural)]
pub enum FaceletConversionError {
    /// No cubicle shows the sticker colors of the corner piece that
    /// lives in `cubicle`, under any orientation.
    CornerCubieNotFound { cubicle: CornerCubicle },
    /// No cubicle shows the sticker colors of the edge piece that lives
    /// in `cubicle`, under any orientation.
    EdgeCubieNotFound { cubicle: EdgeCubicle },
    /// Each piece was found somewhere, but the assignment is not a
    /// permutation.
    CubieCubeConstruction(CubieCubeConstructionError),
}

impl FaceletCube {
    /// The color of sticker `i` of face `f`.
    pub open spec fn facelet(self, f: int, i: int) -> Color {
        self.faces@[f * 9 + i]
    }

    /// Cubicle `c` shows, for the corner piece of home `h` rotated by
    /// `o`, exactly the piece's colors: sticker `s` of cubicle `c` holds
    /// color `(s - o) mod 3` of the piece.
    pub open spec fn corner_match(self, h: int, o: int, c: int) -> bool {
        forall|s: int| 0 <= s < 3 ==> self.faces@[#[trigger] corner_slot(c, s)] == corner_color(
            h,
            (s + 3 - o) % 3,
        )
    }

    /// Cubicle `c` shows, for the edge piece of home `h` flipped by `o`,
    /// exactly the piece's colors.
    pub open spec fn edge_match(self, h: int, o: int, c: int) -> bool {
        forall|s: int| 0 <= s < 2 ==> self.faces@[#[trigger] edge_slot(c, s)] == edge_color(
            h,
            (s + 2 - o) % 2,
        )
    }

    /// The scan for the corner piece of home `h`, from orientation `o`
    /// and cubicle `c` on: the first `(cubicle, orientation)` whose
    /// stickers match, scanning orientation-major.
    pub open spec fn corner_scan(self, h: int, o: int, c: int) -> Option<(int, int)>
        decreases 3 - o, 8 - c when 0 <= o <= 3 && 0 <= c <= 8
    {
        if o >= 3 {
            None
        } else if c >= 8 {
            self.corner_scan(h, o + 1, 0)
        } else if self.corner_match(h, o, c) {
            Some((c, o))
        } else {
            self.corner_scan(h, o, c + 1)
        }
    }

    /// The cubicles the corner scans assign, home by home.
    pub open spec fn corner_scan_perm(self) -> Seq<int> {
        Seq::new(
            8,
            |h: int|
                match self.corner_scan(h, 0, 0) {
                    Some(p) => p.0,
                    None => 0,
                },
        )
    }

    /// The cubicles the edge scans assign, home by home.
    pub open spec fn edge_scan_perm(self) -> Seq<int> {
        Seq::new(
            12,
            |h: int|
                match self.edge_scan(h, 0, 0) {
                    Some(p) => p.0,
                    None => 0,
                },
        )
    }

    /// The scan for the edge piece of home `h`.
    pub open spec fn edge_scan(self, h: int, o: int, c: int) -> Option<(int, int)>
        decreases 2 - o, 12 - c when 0 <= o <= 2 && 0 <= c <= 12
    {
        if o >= 2 {
            None
        } else if c >= 12 {
            self.edge_scan(h, o + 1, 0)
        } else if self.edge_match(h, o, c) {
            Some((c, o))
        } else {
            self.edge_scan(h, o, c + 1)
        }
    }

    /// A builder that tracks which stickers have been set.
    pub fn builder() -> (r: FaceletCubeBuilder)
        ensures
            forall|t: int| 0 <= t < 54 ==> !(#[trigger] r.initialized@[t]),
    {
        FaceletCubeBuilder { initialized: [false;54], faces: [Color::Blue;54] }
    }

    /// The face of the given center color, stickers 0 to 8 in row-major
    /// order.
    pub fn get_face(&self, center: Color) -> (r: [Color; 9])
        ensures
            forall|i: int| 0 <= i < 9 ==> #[trigger] r@[i] == self.facelet(center.idx(), i),
    {
        let f = center.index();
        let r = [self.faces[f * 9], self.faces[f * 9 + 1], self.faces[f * 9 + 2], self.faces[f * 9
            + 3], self.faces[f * 9 + 4], self.faces[f * 9 + 5], self.faces[f * 9 + 6], self.faces[f
            * 9 + 7], self.faces[f * 9 + 8]];
        assert(forall|i: int| 0 <= i < 9 ==> #[trigger] r@[i] == self.faces@[f * 9 + i]);
        r
    }

    /// Renders a cube as stickers: every piece's home color tuple,
    /// rotated by the piece's current orientation, is written into the
    /// sticker slots of the cubicle the piece currently occupies, and
    /// each center keeps its face color.
    pub fn from_cubie_cube(cube: &CubieCube) -> (r: Self)
        requires
            cube.wf(),
        ensures
            forall|h: int, s: int|
                0 <= h < 8 && 0 <= s < 3 ==> r.faces@[#[trigger] corner_slot(
                    cube.corner_states()[h].0,
                    s,
                )] == corner_color(h, (s + 3 - cube.corner_states()[h].1) % 3),
            forall|h: int, s: int|
                0 <= h < 12 && 0 <= s < 2 ==> r.faces@[#[trigger] edge_slot(
                    cube.edge_states()[h].0,
                    s,
                )] == edge_color(h, (s + 2 - cube.edge_states()[h].1) % 2),
            forall|f: int| 0 <= f < 6 ==> #[trigger] r.faces@[f * 9 + 4] == Color::from_idx(f),
            renders(r.faces@, *cube),
    {
        let ghost cs = cube.corner_states();
        let ghost es = cube.edge_states();
        let mut faces: [Color; 54] = [Color::Blue;54];
        // centers first
        let mut f: usize = 0;
        while f < 6
            invariant
                f <= 6,
                forall|t: int| 0 <= t < f ==> #[trigger] faces@[t * 9 + 4] == Color::from_idx(t),
            decreases 6 - f,
        {
            let ghost prev = faces@;
            faces[f * 9 + 4] = color_from_index(f);
            proof {
                assert forall|t: int| 0 <= t < f + 1 implies #[trigger] faces@[t * 9 + 4]
                    == Color::from_idx(t) by {
                    if t < f {
                        assert(t * 9 + 4 != f * 9 + 4) by {
                            assert(t * 9 < f * 9);
                        }
                        assert(faces@[t * 9 + 4] == prev[t * 9 + 4]);
                    }
                }
            }
            f += 1;
        }
        // corner stickers
        let mut h: usize = 0;
        while h < 8
            invariant
                h <= 8,
                cube.wf(),
                cs == cube.corner_states(),
                forall|t: int| 0 <= t < 6 ==> #[trigger] faces@[t * 9 + 4] == Color::from_idx(t),
                forall|hp: int, s: int|
                    0 <= hp < h && 0 <= s < 3 ==> faces@[#[trigger] corner_slot(cs[hp].0, s)]
                        == corner_color(hp, (s + 3 - cs[hp].1) % 3),
            decreases 8 - h,
        {
            let ghost prev = faces@;
            let st = *cube.corners.get(h);
            let c = st.c.index();
            let o = st.orientation().index();
            proof {
                assert(cs[h as int] == (st.c.idx(), st.o.idx()));
                assert(perm_of(cs)[h as int] == st.c.idx());
                assert(0 <= perm_of(cs)[h as int] < 8);
                lemma_corner_slots(c as int, 0, c as int, 1);
                lemma_corner_slots(c as int, 1, c as int, 2);
                lemma_corner_slots(c as int, 2, c as int, 0);
            }
            let (f0, i0) = corner_slot_exec(c, 0);
            let (f1, i1) = corner_slot_exec(c, 1);
            let (f2, i2) = corner_slot_exec(c, 2);
            let r0 = corner_color_exec(h, (0 + 3 - o) % 3);
            let r1 = corner_color_exec(h, (1 + 3 - o) % 3);
            let r2 = corner_color_exec(h, (2 + 3 - o) % 3);
            faces[f0 * 9 + i0] = r0;
            faces[f1 * 9 + i1] = r1;
            faces[f2 * 9 + i2] = r2;
            proof {
                assert(faces@[corner_slot(c as int, 0)] == r0);
                assert(faces@[corner_slot(c as int, 1)] == r1);
                assert(faces@[corner_slot(c as int, 2)] == r2);
                assert forall|t: int| 0 <= t < 6 implies #[trigger] faces@[t * 9 + 4]
                    == Color::from_idx(t) by {
                    lemma_corner_slots(c as int, 0, c as int, 0);
                    lemma_corner_slots(c as int, 1, c as int, 1);
                    lemma_corner_slots(c as int, 2, c as int, 2);
                    assert(t * 9 + 4 != corner_slot(c as int, 0) && t * 9 + 4 != corner_slot(
                        c as int,
                        1,
                    ) && t * 9 + 4 != corner_slot(c as int, 2)) by {
                        assert(corner_slot(c as int, 0) % 9 != 4);
                        assert(corner_slot(c as int, 1) % 9 != 4);
                        assert(corner_slot(c as int, 2) % 9 != 4);
                        assert((t * 9 + 4) % 9 == 4) by {
                            vstd::arithmetic::div_mod::lemma_mod_multiples_vanish(t, 4, 9);
                        }
                    }
                    assert(faces@[t * 9 + 4] == prev[t * 9 + 4]);
                }
                assert forall|hp: int, s: int|
                    0 <= hp < h + 1 && 0 <= s < 3 implies faces@[#[trigger] corner_slot(
                    cs[hp].0,
                    s,
                )] == corner_color(hp, (s + 3 - cs[hp].1) % 3) by {
                    if hp < h {
                        assert(perm_of(cs)[hp] == cs[hp].0);
                        assert(perm_of(cs)[h as int] == cs[h as int].0);
                        assert(cs[hp].0 != cs[h as int].0);
                        assert(0 <= cs[hp].0 < 8);
                        lemma_corner_slots(cs[hp].0, s, c as int, 0);
                        lemma_corner_slots(cs[hp].0, s, c as int, 1);
                        lemma_corner_slots(cs[hp].0, s, c as int, 2);
                        assert(faces@[corner_slot(cs[hp].0, s)] == prev[corner_slot(cs[hp].0, s)]);
                    } else {
                        assert(cs[hp].0 == c as int && cs[hp].1 == o as int);
                    }
                }
            }
            h += 1;
        }
        // edge stickers
        let mut k: usize = 0;
        while k < 12
            invariant
                k <= 12,
                cube.wf(),
                cs == cube.corner_states(),
                es == cube.edge_states(),
                forall|t: int| 0 <= t < 6 ==> #[trigger] faces@[t * 9 + 4] == Color::from_idx(t),
                forall|hp: int, s: int|
                    0 <= hp < 8 && 0 <= s < 3 ==> faces@[#[trigger] corner_slot(cs[hp].0, s)]
                        == corner_color(hp, (s + 3 - cs[hp].1) % 3),
                forall|hp: int, s: int|
                    0 <= hp < k && 0 <= s < 2 ==> faces@[#[trigger] edge_slot(es[hp].0, s)]
                        == edge_color(hp, (s + 2 - es[hp].1) % 2),
            decreases 12 - k,
        {
            let ghost prev = faces@;
            let st = *cube.edges.get(k);
            let c = st.c.index();
            let o = st.orientation().index();
            proof {
                assert(es[k as int] == (st.c.idx(), st.o.idx()));
                assert(perm_of(es)[k as int] == st.c.idx());
                assert(0 <= perm_of(es)[k as int] < 12);
                lemma_edge_slots(c as int, 0, c as int, 1);
            }
            let (f0, i0) = edge_slot_exec(c, 0);
            let (f1, i1) = edge_slot_exec(c, 1);
            let r0 = edge_color_exec(k, (0 + 2 - o) % 2);
            let r1 = edge_color_exec(k, (1 + 2 - o) % 2);
            faces[f0 * 9 + i0] = r0;
            faces[f1 * 9 + i1] = r1;
            proof {
                assert(faces@[edge_slot(c as int, 0)] == r0);
                assert(faces@[edge_slot(c as int, 1)] == r1);
                assert forall|t: int| 0 <= t < 6 implies #[trigger] faces@[t * 9 + 4]
                    == Color::from_idx(t) by {
                    lemma_edge_slots(c as int, 0, c as int, 0);
                    lemma_edge_slots(c as int, 1, c as int, 1);
                    assert(t * 9 + 4 != edge_slot(c as int, 0) && t * 9 + 4 != edge_slot(
                        c as int,
                        1,
                    )) by {
                        assert(edge_slot(c as int, 0) % 9 != 4);
                        assert(edge_slot(c as int, 1) % 9 != 4);
                        assert((t * 9 + 4) % 9 == 4) by {
                            vstd::arithmetic::div_mod::lemma_mod_multiples_vanish(t, 4, 9);
                        }
                    }
                    assert(faces@[t * 9 + 4] == prev[t * 9 + 4]);
                }
                assert forall|hp: int, s: int|
                    0 <= hp < 8 && 0 <= s < 3 implies faces@[#[trigger] corner_slot(cs[hp].0, s)]
                    == corner_color(hp, (s + 3 - cs[hp].1) % 3) by {
                    assert(perm_of(cs)[hp] == cs[hp].0);
                    assert(0 <= cs[hp].0 < 8);
                    lemma_edge_slots(c as int, 0, c as int, 0);
                    lemma_edge_slots(c as int, 1, c as int, 1);
                    assert(faces@[corner_slot(cs[hp].0, s)] == prev[corner_slot(cs[hp].0, s)]);
                }
                assert forall|hp: int, s: int|
                    0 <= hp < k + 1 && 0 <= s < 2 implies faces@[#[trigger] edge_slot(
                    es[hp].0,
                    s,
                )] == edge_color(hp, (s + 2 - es[hp].1) % 2) by {
                    if hp < k {
                        assert(perm_of(es)[hp] == es[hp].0);
                        assert(perm_of(es)[k as int] == es[k as int].0);
                        assert(es[hp].0 != es[k as int].0);
                        assert(0 <= es[hp].0 < 12);
                        lemma_edge_slots(es[hp].0, s, c as int, 0);
                        lemma_edge_slots(es[hp].0, s, c as int, 1);
                        assert(faces@[edge_slot(es[hp].0, s)] == prev[edge_slot(es[hp].0, s)]);
                    } else {
                        assert(es[hp].0 == c as int && es[hp].1 == o as int);
                    }
                }
            }
            k += 1;
        }
        FaceletCube { faces }
    }

    /// Decodes stickers back into a cube. For every home piece the
    /// stickers are searched for a cubicle showing that piece's colors
    /// under some orientation, scanning orientations outermost; the
    /// first match is taken. Fails with a not-found error exactly when
    /// some piece's search comes up empty, and with a construction
    /// error when the matches do not form a permutation.
    pub fn to_cubie_cube(&self) -> (r: Result<CubieCube, FaceletConversionError>)
        ensures
            r matches Ok(cube) ==> {
                &&& cube.wf()
                &&& forall|h: int|
                    0 <= h < 8 ==> self.corner_scan(h, 0, 0) == Some(
                        (
                            (#[trigger] cube.corner_states()[h]).0,
                            cube.corner_states()[h].1,
                        ),
                    )
                &&& forall|h: int|
                    0 <= h < 12 ==> self.edge_scan(h, 0, 0) == Some(
                        ((#[trigger] cube.edge_states()[h]).0, cube.edge_states()[h].1),
                    )
            },
            r matches Err(e) ==> {
                ||| (e matches FaceletConversionError::CornerCubieNotFound { cubicle }
                    && self.corner_scan(cubicle.idx(), 0, 0) is None)
                ||| (e matches FaceletConversionError::EdgeCubieNotFound { cubicle }
                    && self.edge_scan(cubicle.idx(), 0, 0) is None)
                ||| (e matches FaceletConversionError::CubieCubeConstruction(ce)
                    && ce == CubieCubeConstructionError::EmptyCubicles && (forall|h: int|
                        0 <= h < 8 ==> (#[trigger] self.corner_scan(h, 0, 0)) is Some) && (forall|
                        h: int,
                    |
                        0 <= h < 12 ==> (#[trigger] self.edge_scan(h, 0, 0)) is Some) && !(
                    crate::permutation::is_permutation(self.corner_scan_perm())
                        && crate::permutation::is_permutation(self.edge_scan_perm())))
            },
    {
        let mut corners: [CornerCubie; 8] = [CornerCubie {
            c: CornerCubicle::C0,
            o: CornerOrientation::O0,
        };8];
        let mut h: usize = 0;
        while h < 8
            invariant
                h <= 8,
                forall|t: int|
                    0 <= t < h ==> self.corner_scan(t, 0, 0) == Some(
                        (
                            (#[trigger] corners@[t]).c.idx(),
                            corners@[t].o.idx(),
                        ),
                    ),
            decreases 8 - h,
        {
            let ghost prev = corners@;
            let found = self.find_corner(h);
            match found {
                Some((c, o)) => {
                    corners[h] = CornerCubie {
                        c: CornerCubicle::from_index(c),
                        o: CornerOrientation::from_index(o),
                    };
                    proof {
                        assert forall|t: int|
                            0 <= t < h + 1 implies self.corner_scan(t, 0, 0) == Some(
                            ((#[trigger] corners@[t]).c.idx(), corners@[t].o.idx()),
                        ) by {
                            if t < h {
                                assert(corners@[t] == prev[t]);
                            }
                        }
                    }
                },
                None => {
                    return Err(
                        FaceletConversionError::CornerCubieNotFound {
                            cubicle: CornerCubicle::from_index(h),
                        },
                    );
                },
            }
            h += 1;
        }
        let mut edges: [EdgeCubie; 12] = [EdgeCubie { c: EdgeCubicle::C0, o: EdgeOrientation::O0 };12];
        let mut k: usize = 0;
        while k < 12
            invariant
                k <= 12,
                forall|t: int|
                    0 <= t < 8 ==> self.corner_scan(t, 0, 0) == Some(
                        ((#[trigger] corners@[t]).c.idx(), corners@[t].o.idx()),
                    ),
                forall|t: int|
                    0 <= t < k ==> self.edge_scan(t, 0, 0) == Some(
                        ((#[trigger] edges@[t]).c.idx(), edges@[t].o.idx()),
                    ),
            decreases 12 - k,
        {
            let ghost prev = edges@;
            let found = self.find_edge(k);
            match found {
                Some((c, o)) => {
                    edges[k] = EdgeCubie {
                        c: EdgeCubicle::from_index(c),
                        o: EdgeOrientation::from_index(o),
                    };
                    proof {
                        assert forall|t: int|
                            0 <= t < k + 1 implies self.edge_scan(t, 0, 0) == Some(
                            ((#[trigger] edges@[t]).c.idx(), edges@[t].o.idx()),
                        ) by {
                            if t < k {
                                assert(edges@[t] == prev[t]);
                            }
                        }
                    }
                },
                None => {
                    return Err(
                        FaceletConversionError::EdgeCubieNotFound {
                            cubicle: EdgeCubicle::from_index(k),
                        },
                    );
                },
            }
            k += 1;
        }
        let ca = CubicleArray::new(corners);
        let ea = CubicleArray::new(edges);
        proof {
            assert(corner_bank_states(ca@) =~= corner_bank_states(corners@));
            assert(edge_bank_states(ea@) =~= edge_bank_states(edges@));
        }
        match CubieCube::try_new(ca, ea) {
            Ok(cube) => {
                proof {
                    assert forall|t: int|
                        0 <= t < 8 implies self.corner_scan(t, 0, 0) == Some(
                        (
                            (#[trigger] cube.corner_states()[t]).0,
                            cube.corner_states()[t].1,
                        ),
                    ) by {
                        assert(cube.corner_states()[t] == (corners@[t].c.idx(), corners@[t].o.idx()));
                    }
                    assert forall|t: int|
                        0 <= t < 12 implies self.edge_scan(t, 0, 0) == Some(
                        ((#[trigger] cube.edge_states()[t]).0, cube.edge_states()[t].1),
                    ) by {
                        assert(cube.edge_states()[t] == (edges@[t].c.idx(), edges@[t].o.idx()));
                    }
                }
                Ok(cube)
            },
            Err(e) => {
                proof {
                    assert forall|h: int|
                        0 <= h < 8 implies (#[trigger] self.corner_scan(h, 0, 0)) is Some by {
                        assert(self.corner_scan(h, 0, 0) == Some(
                            (corners@[h].c.idx(), corners@[h].o.idx()),
                        ));
                    }
                    assert forall|h: int|
                        0 <= h < 12 implies (#[trigger] self.edge_scan(h, 0, 0)) is Some by {
                        assert(self.edge_scan(h, 0, 0) == Some(
                            (edges@[h].c.idx(), edges@[h].o.idx()),
                        ));
                    }
                    assert(perm_of(corner_bank_states(ca@)) =~= self.corner_scan_perm()) by {
                        assert forall|t: int|
                            0 <= t < 8 implies perm_of(corner_bank_states(ca@))[t]
                            == self.corner_scan_perm()[t] by {
                            assert(self.corner_scan(t, 0, 0) == Some(
                                (corners@[t].c.idx(), corners@[t].o.idx()),
                            ));
                            assert(corner_bank_states(ca@)[t].0 == corners@[t].c.idx());
                        }
                    }
                    assert(perm_of(edge_bank_states(ea@)) =~= self.edge_scan_perm()) by {
                        assert forall|t: int|
                            0 <= t < 12 implies perm_of(edge_bank_states(ea@))[t]
                            == self.edge_scan_perm()[t] by {
                            assert(self.edge_scan(t, 0, 0) == Some(
                                (edges@[t].c.idx(), edges@[t].o.idx()),
                            ));
                            assert(edge_bank_states(ea@)[t].0 == edges@[t].c.idx());
                        }
                    }
                }
                Err(FaceletConversionError::CubieCubeConstruction(e))
            },
        }
    }

    /// Runs the sticker search for the corner piece of home `h`.
    fn find_corner(&self, h: usize) -> (r: Option<(usize, usize)>)
        requires
            h < 8,
        ensures
            r matches Some(p) ==> p.0 < 8 && p.1 < 3 && self.corner_scan(h as int, 0, 0) == Some(
                (p.0 as int, p.1 as int),
            ),
            r is None ==> self.corner_scan(h as int, 0, 0) is None,
    {
        let mut o: usize = 0;
        while o < 3
            invariant
                o <= 3,
                h < 8,
                self.corner_scan(h as int, 0, 0) == self.corner_scan(h as int, o as int, 0),
            decreases 3 - o,
        {
            let mut c: usize = 0;
            while c < 8
                invariant
                    o < 3,
                    c <= 8,
                    h < 8,
                    self.corner_scan(h as int, 0, 0) == self.corner_scan(
                        h as int,
                        o as int,
                        c as int,
                    ),
                decreases 8 - c,
            {
                if self.corner_match_exec(h, o, c) {
                    return Some((c, o));
                }
                c += 1;
            }
            o += 1;
        }
        None
    }

    /// Runs the sticker search for the edge piece of home `h`.
    fn find_edge(&self, h: usize) -> (r: Option<(usize, usize)>)
        requires
            h < 12,
        ensures
            r matches Some(p) ==> p.0 < 12 && p.1 < 2 && self.edge_scan(h as int, 0, 0) == Some(
                (p.0 as int, p.1 as int),
            ),
            r is None ==> self.edge_scan(h as int, 0, 0) is None,
    {
        let mut o: usize = 0;
        while o < 2
            invariant
                o <= 2,
                h < 12,
                self.edge_scan(h as int, 0, 0) == self.edge_scan(h as int, o as int, 0),
            decreases 2 - o,
        {
            let mut c: usize = 0;
            while c < 12
                invariant
                    o < 2,
                    c <= 12,
                    h < 12,
                    self.edge_scan(h as int, 0, 0) == self.edge_scan(h as int, o as int, c as int),
                decreases 12 - c,
            {
                if self.edge_match_exec(h, o, c) {
                    return Some((c, o));
                }
                c += 1;
            }
            o += 1;
        }
        None
    }

    /// Whether cubicle `c` shows home `h`'s corner colors rotated by `o`.
    fn corner_match_exec(&self, h: usize, o: usize, c: usize) -> (r: bool)
        requires
            h < 8,
            o < 3,
            c < 8,
        ensures
            r == self.corner_match(h as int, o as int, c as int),
    {
        let (f0, i0) = corner_slot_exec(c, 0);
        let (f1, i1) = corner_slot_exec(c, 1);
        let (f2, i2) = corner_slot_exec(c, 2);
        proof {
            lemma_corner_slots(c as int, 0, c as int, 1);
            lemma_corner_slots(c as int, 1, c as int, 2);
            lemma_corner_slots(c as int, 2, c as int, 0);
        }
        let m = self.faces[f0 * 9 + i0] == corner_color_exec(h, (0 + 3 - o) % 3) && self.faces[f1
            * 9 + i1] == corner_color_exec(h, (1 + 3 - o) % 3) && self.faces[f2 * 9 + i2]
            == corner_color_exec(h, (2 + 3 - o) % 3);
        proof {
            if m {
                assert forall|s: int| 0 <= s < 3 implies self.faces@[#[trigger] corner_slot(
                    c as int,
                    s,
                )] == corner_color(h as int, (s + 3 - o) % 3) by {
                    if s == 0 {
                    } else if s == 1 {
                    } else {
                    }
                }
            }
        }
        m
    }

    /// Whether cubicle `c` shows home `h`'s edge colors flipped by `o`.
    fn edge_match_exec(&self, h: usize, o: usize, c: usize) -> (r: bool)
        requires
            h < 12,
            o < 2,
            c < 12,
        ensures
            r == self.edge_match(h as int, o as int, c as int),
    {
        let (f0, i0) = edge_slot_exec(c, 0);
        let (f1, i1) = edge_slot_exec(c, 1);
        proof {
            lemma_edge_slots(c as int, 0, c as int, 1);
        }
        let m = self.faces[f0 * 9 + i0] == edge_color_exec(h, (0 + 2 - o) % 2) && self.faces[f1 * 9
            + i1] == edge_color_exec(h, (1 + 2 - o) % 2);
        proof {
            if m {
                assert forall|s: int| 0 <= s < 2 implies self.faces@[#[trigger] edge_slot(
                    c as int,
                    s,
                )] == edge_color(h as int, (s + 2 - o) % 2) by {
                    if s == 0 {
                    } else {
                    }
                }
            }
        }
        m
    }
}

impl CubieCube {
    /// This cube as stickers; see [`FaceletCube::from_cubie_cube`].
    pub fn to_facelet_cube(&self) -> (r: FaceletCube)
        requires
            self.wf(),
        ensures
            forall|h: int, s: int|
                0 <= h < 8 && 0 <= s < 3 ==> r.faces@[#[trigger] corner_slot(
                    self.corner_states()[h].0,
                    s,
                )] == corner_color(h, (s + 3 - self.corner_states()[h].1) % 3),
            forall|h: int, s: int|
                0 <= h < 12 && 0 <= s < 2 ==> r.faces@[#[trigger] edge_slot(
                    self.edge_states()[h].0,
                    s,
                )] == edge_color(h, (s + 2 - self.edge_states()[h].1) % 2),
            forall|f: int| 0 <= f < 6 ==> #[trigger] r.faces@[f * 9 + 4] == Color::from_idx(f),
            renders(r.faces@, *self),
    {
        FaceletCube::from_cubie_cube(self)
    }
}

/// Two different `(home, orientation)` pairs always show different
/// corner sticker tuples: the solved color tuples are pairwise
/// rotation-distinct, and rotating a tuple of three distinct colors
/// never reproduces it.
proof fn lemma_corner_tuples_distinct(h1: int, o1: int, h2: int, o2: int)
    requires
        0 <= h1 < 8,
        0 <= o1 < 3,
        0 <= h2 < 8,
        0 <= o2 < 3,
        !(h1 == h2 && o1 == o2),
    ensures
        exists|s: int|
            0 <= s < 3 && #[trigger] corner_color(h1, (s + 3 - o1) % 3) != corner_color(
                h2,
                (s + 3 - o2) % 3,
            ),
{
    if corner_color(h1, (0 + 3 - o1) % 3) != corner_color(h2, (0 + 3 - o2) % 3) {
        assert(0 <= 0 < 3 && corner_color(h1, (0 + 3 - o1) % 3) != corner_color(
            h2,
            (0 + 3 - o2) % 3,
        ));
    } else if corner_color(h1, (1 + 3 - o1) % 3) != corner_color(h2, (1 + 3 - o2) % 3) {
        assert(0 <= 1 < 3 && corner_color(h1, (1 + 3 - o1) % 3) != corner_color(
            h2,
            (1 + 3 - o2) % 3,
        ));
    } else {
        assert(0 <= 2 < 3 && corner_color(h1, (2 + 3 - o1) % 3) != corner_color(
            h2,
            (2 + 3 - o2) % 3,
        ));
    }
}

/// Two different `(home, orientation)` pairs always show different edge
/// sticker tuples.
proof fn lemma_edge_tuples_distinct(h1: int, o1: int, h2: int, o2: int)
    requires
        0 <= h1 < 12,
        0 <= o1 < 2,
        0 <= h2 < 12,
        0 <= o2 < 2,
        !(h1 == h2 && o1 == o2),
    ensures
        exists|s: int|
            0 <= s < 2 && #[trigger] edge_color(h1, (s + 2 - o1) % 2) != edge_color(
                h2,
                (s + 2 - o2) % 2,
            ),
{
    if edge_color(h1, (0 + 2 - o1) % 2) != edge_color(h2, (0 + 2 - o2) % 2) {
        assert(0 <= 0 < 2 && edge_color(h1, (0 + 2 - o1) % 2) != edge_color(h2, (0 + 2 - o2) % 2));
    } else {
        assert(0 <= 1 < 2 && edge_color(h1, (1 + 2 - o1) % 2) != edge_color(h2, (1 + 2 - o2) % 2));
    }
}

/// On a rendered cube, the one and only match for a home's corner
/// piece is the cubicle and orientation the cube actually gives it.
proof fn lemma_corner_match_unique(fc: FaceletCube, cube: CubieCube, h: int, o: int, c: int)
    requires
        cube.wf(),
        renders(fc.faces@, cube),
        0 <= h < 8,
        0 <= o < 3,
        0 <= c < 8,
    ensures
        fc.corner_match(h, o, c) <==> (c == cube.corner_states()[h].0 && o
            == cube.corner_states()[h].1),
{
    let cs = cube.corner_states();
    crate::algebra::lemma_inv_at(cs, 3, c);
    let hp = crate::algebra::inv_at(cs, c);
    let op = cs[hp].1;
    assert(0 <= op < 3);
    assert(forall|s: int|
        0 <= s < 3 ==> fc.faces@[#[trigger] corner_slot(c, s)] == corner_color(
            hp,
            (s + 3 - op) % 3,
        ));
    if fc.corner_match(h, o, c) {
        if !(h == hp && o == op) {
            lemma_corner_tuples_distinct(h, o, hp, op);
            let s = choose|s: int|
                0 <= s < 3 && #[trigger] corner_color(h, (s + 3 - o) % 3) != corner_color(
                    hp,
                    (s + 3 - op) % 3,
                );
            assert(fc.faces@[corner_slot(c, s)] == corner_color(h, (s + 3 - o) % 3));
            assert(false);
        }
        assert(cs[h].0 == c);
    }
    if c == cs[h].0 && o == cs[h].1 {
        assert(hp == h && op == o);
        assert forall|s: int| 0 <= s < 3 implies fc.faces@[#[trigger] corner_slot(c, s)]
            == corner_color(h, (s + 3 - o) % 3) by {}
    }
}

/// On a rendered cube, the one and only match for a home's edge piece
/// is the cubicle and orientation the cube actually gives it.
proof fn lemma_edge_match_unique(fc: FaceletCube, cube: CubieCube, h: int, o: int, c: int)
    requires
        cube.wf(),
        renders(fc.faces@, cube),
        0 <= h < 12,
        0 <= o < 2,
        0 <= c < 12,
    ensures
        fc.edge_match(h, o, c) <==> (c == cube.edge_states()[h].0 && o == cube.edge_states()[h].1),
{
    let es = cube.edge_states();
    crate::algebra::lemma_inv_at(es, 2, c);
    let hp = crate::algebra::inv_at(es, c);
    let op = es[hp].1;
    assert(0 <= op < 2);
    assert(forall|s: int|
        0 <= s < 2 ==> fc.faces@[#[trigger] edge_slot(c, s)] == edge_color(hp, (s + 2 - op) % 2));
    if fc.edge_match(h, o, c) {
        if !(h == hp && o == op) {
            lemma_edge_tuples_distinct(h, o, hp, op);
            let s = choose|s: int|
                0 <= s < 2 && #[trigger] edge_color(h, (s + 2 - o) % 2) != edge_color(
                    hp,
                    (s + 2 - op) % 2,
                );
            assert(fc.faces@[edge_slot(c, s)] == edge_color(h, (s + 2 - o) % 2));
            assert(false);
        }
        assert(es[h].0 == c);
    }
    if c == es[h].0 && o == es[h].1 {
        assert(hp == h && op == o);
        assert forall|s: int| 0 <= s < 2 implies fc.faces@[#[trigger] edge_slot(c, s)]
            == edge_color(h, (s + 2 - o) % 2) by {}
    }
}

/// A scan over a grid with exactly one matching cell, started at or
/// before that cell, finds it.
proof fn lemma_corner_scan_unique(fc: FaceletCube, h: int, o: int, c: int, o0: int, c0: int)
    requires
        0 <= o0 < 3,
        0 <= c0 < 8,
        forall|oq: int, cq: int|
            0 <= oq < 3 && 0 <= cq < 8 ==> (#[trigger] fc.corner_match(h, oq, cq) <==> (cq == c0
                && oq == o0)),
        0 <= o <= o0,
        0 <= c <= 8,
        o == o0 ==> c <= c0,
    ensures
        fc.corner_scan(h, o, c) == Some((c0, o0)),
    decreases 3 - o, 8 - c,
{
    if c >= 8 {
        lemma_corner_scan_unique(fc, h, o + 1, 0, o0, c0);
    } else if o == o0 && c == c0 {
        assert(fc.corner_match(h, o, c));
    } else {
        assert(!fc.corner_match(h, o, c));
        lemma_corner_scan_unique(fc, h, o, c + 1, o0, c0);
    }
}

/// A scan over a grid with exactly one matching cell, started at or
/// before that cell, finds it.
proof fn lemma_edge_scan_unique(fc: FaceletCube, h: int, o: int, c: int, o0: int, c0: int)
    requires
        0 <= o0 < 2,
        0 <= c0 < 12,
        forall|oq: int, cq: int|
            0 <= oq < 2 && 0 <= cq < 12 ==> (#[trigger] fc.edge_match(h, oq, cq) <==> (cq == c0
                && oq == o0)),
        0 <= o <= o0,
        0 <= c <= 12,
        o == o0 ==> c <= c0,
    ensures
        fc.edge_scan(h, o, c) == Some((c0, o0)),
    decreases 2 - o, 12 - c,
{
    if c >= 12 {
        lemma_edge_scan_unique(fc, h, o + 1, 0, o0, c0);
    } else if o == o0 && c == c0 {
        assert(fc.edge_match(h, o, c));
    } else {
        assert(!fc.edge_match(h, o, c));
        lemma_edge_scan_unique(fc, h, o, c + 1, o0, c0);
    }
}

/// The round-trip law: decoding a rendered cube finds every piece
/// exactly where the cube has it. Together with the contracts of
/// [`FaceletCube::to_cubie_cube`] and [`CubieCube::try_new`], rendering
/// any well-formed cube with [`FaceletCube::from_cubie_cube`] and
/// decoding the stickers again yields the cube itself.
pub proof fn lemma_facelet_round_trip(fc: FaceletCube, cube: CubieCube)
    requires
        cube.wf(),
        renders(fc.faces@, cube),
    ensures
        forall|h: int|
            0 <= h < 8 ==> fc.corner_scan(h, 0, 0) == Some(
                ((#[trigger] cube.corner_states()[h]).0, cube.corner_states()[h].1),
            ),
        forall|h: int|
            0 <= h < 12 ==> fc.edge_scan(h, 0, 0) == Some(
                ((#[trigger] cube.edge_states()[h]).0, cube.edge_states()[h].1),
            ),
{
    let cs = cube.corner_states();
    let es = cube.edge_states();
    assert forall|h: int| 0 <= h < 8 implies fc.corner_scan(h, 0, 0) == Some(
        ((#[trigger] cs[h]).0, cs[h].1),
    ) by {
        assert(perm_of(cs)[h] == cs[h].0);
        assert(0 <= cs[h].0 < 8);
        assert(0 <= cs[h].1 < 3);
        assert forall|oq: int, cq: int|
            0 <= oq < 3 && 0 <= cq < 8 implies (#[trigger] fc.corner_match(h, oq, cq) <==> (cq
            == cs[h].0 && oq == cs[h].1)) by {
            lemma_corner_match_unique(fc, cube, h, oq, cq);
        }
        lemma_corner_scan_unique(fc, h, 0, 0, cs[h].1, cs[h].0);
    }
    assert forall|h: int| 0 <= h < 12 implies fc.edge_scan(h, 0, 0) == Some(
        ((#[trigger] es[h]).0, es[h].1),
    ) by {
        assert(perm_of(es)[h] == es[h].0);
        assert(0 <= es[h].0 < 12);
        assert(0 <= es[h].1 < 2);
        assert forall|oq: int, cq: int|
            0 <= oq < 2 && 0 <= cq < 12 implies (#[trigger] fc.edge_match(h, oq, cq) <==> (cq
            == es[h].0 && oq == es[h].1)) by {
            lemma_edge_match_unique(fc, cube, h, oq, cq);
        }
        lemma_edge_scan_unique(fc, h, 0, 0, es[h].1, es[h].0);
    }
}

/// Every non-center sticker slot is the sticker of exactly one piece:
/// a corner sticker on the diagonals of a face, an edge sticker on the
/// sides.
proof fn lemma_slot_coverage(v: int)
    requires
        0 <= v < 54,
        v % 9 != 4,
    ensures
        (exists|c: int, s: int| 0 <= c < 8 && 0 <= s < 3 && #[trigger] corner_slot(c, s) == v)
            || (exists|c: int, s: int| 0 <= c < 12 && 0 <= s < 2 && #[trigger] edge_slot(c, s)
            == v),
{
    if v == 0 {
        assert(corner_slot(0, 1) == 0);
    }
    if v == 1 {
        assert(edge_slot(1, 1) == 1);
    }
    if v == 2 {
        assert(corner_slot(2, 2) == 2);
    }
    if v == 3 {
        assert(edge_slot(4, 1) == 3);
    }
    if v == 5 {
        assert(edge_slot(6, 1) == 5);
    }
    if v == 6 {
        assert(corner_slot(4, 2) == 6);
    }
    if v == 7 {
        assert(edge_slot(9, 1) == 7);
    }
    if v == 8 {
        assert(corner_slot(6, 1) == 8);
    }
    if v == 9 {
        assert(corner_slot(3, 1) == 9);
    }
    if v == 10 {
        assert(edge_slot(2, 1) == 10);
    }
    if v == 11 {
        assert(corner_slot(1, 2) == 11);
    }
    if v == 12 {
        assert(edge_slot(7, 1) == 12);
    }
    if v == 14 {
        assert(edge_slot(5, 1) == 14);
    }
    if v == 15 {
        assert(corner_slot(7, 2) == 15);
    }
    if v == 16 {
        assert(edge_slot(10, 1) == 16);
    }
    if v == 17 {
        assert(corner_slot(5, 1) == 17);
    }
    if v == 18 {
        assert(corner_slot(6, 0) == 18);
    }
    if v == 19 {
        assert(edge_slot(11, 0) == 19);
    }
    if v == 20 {
        assert(corner_slot(7, 0) == 20);
    }
    if v == 21 {
        assert(edge_slot(9, 0) == 21);
    }
    if v == 23 {
        assert(edge_slot(10, 0) == 23);
    }
    if v == 24 {
        assert(corner_slot(4, 0) == 24);
    }
    if v == 25 {
        assert(edge_slot(8, 0) == 25);
    }
    if v == 26 {
        assert(corner_slot(5, 0) == 26);
    }
    if v == 27 {
        assert(corner_slot(0, 0) == 27);
    }
    if v == 28 {
        assert(edge_slot(0, 0) == 28);
    }
    if v == 29 {
        assert(corner_slot(1, 0) == 29);
    }
    if v == 30 {
        assert(edge_slot(1, 0) == 30);
    }
    if v == 32 {
        assert(edge_slot(2, 0) == 32);
    }
    if v == 33 {
        assert(corner_slot(2, 0) == 33);
    }
    if v == 34 {
        assert(edge_slot(3, 0) == 34);
    }
    if v == 35 {
        assert(corner_slot(3, 0) == 35);
    }
    if v == 36 {
        assert(corner_slot(2, 1) == 36);
    }
    if v == 37 {
        assert(edge_slot(3, 1) == 37);
    }
    if v == 38 {
        assert(corner_slot(3, 2) == 38);
    }
    if v == 39 {
        assert(edge_slot(6, 0) == 39);
    }
    if v == 41 {
        assert(edge_slot(7, 0) == 41);
    }
    if v == 42 {
        assert(corner_slot(6, 2) == 42);
    }
    if v == 43 {
        assert(edge_slot(11, 1) == 43);
    }
    if v == 44 {
        assert(corner_slot(7, 1) == 44);
    }
    if v == 45 {
        assert(corner_slot(1, 1) == 45);
    }
    if v == 46 {
        assert(edge_slot(0, 1) == 46);
    }
    if v == 47 {
        assert(corner_slot(0, 2) == 47);
    }
    if v == 48 {
        assert(edge_slot(5, 0) == 48);
    }
    if v == 50 {
        assert(edge_slot(4, 0) == 50);
    }
    if v == 51 {
        assert(corner_slot(5, 2) == 51);
    }
    if v == 52 {
        assert(edge_slot(8, 1) == 52);
    }
    if v == 53 {
        assert(corner_slot(4, 1) == 53);
    }
}

/// A corner piece's three sticker colors are pairwise different.
proof fn lemma_corner_tuple_entries_distinct(h: int, s1: int, s2: int)
    requires
        0 <= h < 8,
        0 <= s1 < 3,
        0 <= s2 < 3,
        s1 != s2,
    ensures
        corner_color(h, s1) != corner_color(h, s2),
{
}

/// An edge piece's two sticker colors are different.
proof fn lemma_edge_tuple_entries_distinct(h: int, s1: int, s2: int)
    requires
        0 <= h < 12,
        0 <= s1 < 2,
        0 <= s2 < 2,
        s1 != s2,
    ensures
        edge_color(h, s1) != edge_color(h, s2),
{
}

/// A scan over a grid with no matching cell at all comes up empty.
proof fn lemma_corner_scan_none(fc: FaceletCube, h: int, o: int, c: int)
    requires
        forall|oq: int, cq: int|
            0 <= oq < 3 && 0 <= cq < 8 ==> !(#[trigger] fc.corner_match(h, oq, cq)),
        0 <= o <= 3,
        0 <= c <= 8,
    ensures
        fc.corner_scan(h, o, c) is None,
    decreases 3 - o, 8 - c,
{
    if o >= 3 {
    } else if c >= 8 {
        lemma_corner_scan_none(fc, h, o + 1, 0);
    } else {
        assert(!fc.corner_match(h, o, c));
        lemma_corner_scan_none(fc, h, o, c + 1);
    }
}

/// A scan over a grid with no matching cell at all comes up empty.
proof fn lemma_edge_scan_none(fc: FaceletCube, h: int, o: int, c: int)
    requires
        forall|oq: int, cq: int|
            0 <= oq < 2 && 0 <= cq < 12 ==> !(#[trigger] fc.edge_match(h, oq, cq)),
        0 <= o <= 2,
        0 <= c <= 12,
    ensures
        fc.edge_scan(h, o, c) is None,
    decreases 2 - o, 12 - c,
{
    if o >= 2 {
    } else if c >= 12 {
        lemma_edge_scan_none(fc, h, o + 1, 0);
    } else {
        assert(!fc.edge_match(h, o, c));
        lemma_edge_scan_none(fc, h, o, c + 1);
    }
}

/// A single changed sticker is never decodable: editing one non-center
/// sticker of any rendered cube leaves some piece's color tuple
/// unmatched at every cubicle and orientation, so, by the contract of
/// [`FaceletCube::to_cubie_cube`], decoding must fail with a not-found
/// error. (Center stickers are not read by the decoder, so an edited
/// center goes undetected.)
pub proof fn lemma_single_sticker_edit_fails(
    cube: CubieCube,
    fc: FaceletCube,
    fc2: FaceletCube,
    pos: int,
    wrong: Color,
)
    requires
        cube.wf(),
        renders(fc.faces@, cube),
        fc2.faces@ == fc.faces@.update(pos, wrong),
        0 <= pos < 54,
        pos % 9 != 4,
        wrong != fc.faces@[pos],
    ensures
        (exists|h: int| 0 <= h < 8 && (#[trigger] fc2.corner_scan(h, 0, 0)) is None) || (exists|
            h: int,
        |
            0 <= h < 12 && (#[trigger] fc2.edge_scan(h, 0, 0)) is None),
{
    let cs = cube.corner_states();
    let es = cube.edge_states();
    lemma_slot_coverage(pos);
    if exists|c: int, s: int| 0 <= c < 8 && 0 <= s < 3 && #[trigger] corner_slot(c, s) == pos {
        let (c0, s0) = choose|c: int, s: int|
            0 <= c < 8 && 0 <= s < 3 && #[trigger] corner_slot(c, s) == pos;
        crate::algebra::lemma_inv_at(cs, 3, c0);
        let h0 = crate::algebra::inv_at(cs, c0);
        let o0 = cs[h0].1;
        assert(cs[h0].0 == c0);
        assert(0 <= o0 < 3);
        assert forall|oq: int, cq: int|
            0 <= oq < 3 && 0 <= cq < 8 implies !(#[trigger] fc2.corner_match(h0, oq, cq)) by {
            if fc2.corner_match(h0, oq, cq) {
                if cq != c0 {
                    assert forall|s: int|
                        0 <= s < 3 implies fc.faces@[#[trigger] corner_slot(cq, s)]
                        == fc2.faces@[corner_slot(cq, s)] by {
                        lemma_corner_slots(cq, s, c0, s0);
                    }
                    assert(fc.corner_match(h0, oq, cq));
                    lemma_corner_match_unique(fc, cube, h0, oq, cq);
                    assert(cq == c0);
                    assert(false);
                } else {
                    // the tuple at c0 changed in exactly coordinate s0
                    let s1 = if s0 == 0 { 1int } else { 0int };
                    assert(s1 != s0 && 0 <= s1 < 3);
                    assert(corner_slot(c0, s1) != pos) by {
                        lemma_corner_slots(c0, s1, c0, s0);
                    }
                    assert(fc2.faces@[corner_slot(c0, s1)] == fc.faces@[corner_slot(c0, s1)]);
                    assert(fc.faces@[corner_slot(c0, s1)] == corner_color(h0, (s1 + 3 - o0) % 3));
                    assert(fc2.faces@[corner_slot(c0, s1)] == corner_color(h0, (s1 + 3 - oq) % 3));
                    if oq != o0 {
                        assert((s1 + 3 - oq) % 3 != (s1 + 3 - o0) % 3);
                        lemma_corner_tuple_entries_distinct(
                            h0,
                            (s1 + 3 - oq) % 3,
                            (s1 + 3 - o0) % 3,
                        );
                        assert(false);
                    }
                    // same orientation: coordinate s0 pins the edit
                    assert(fc2.faces@[corner_slot(c0, s0)] == wrong);
                    assert(fc2.faces@[corner_slot(c0, s0)] == corner_color(h0, (s0 + 3 - oq) % 3));
                    assert(fc.faces@[corner_slot(c0, s0)] == corner_color(h0, (s0 + 3 - o0) % 3));
                    assert(wrong == fc.faces@[pos]);
                    assert(false);
                }
            }
        }
        lemma_corner_scan_none(fc2, h0, 0, 0);
        assert(0 <= h0 < 8 && fc2.corner_scan(h0, 0, 0) is None);
    } else {
        let (c0, s0) = choose|c: int, s: int|
            0 <= c < 12 && 0 <= s < 2 && #[trigger] edge_slot(c, s) == pos;
        crate::algebra::lemma_inv_at(es, 2, c0);
        let h0 = crate::algebra::inv_at(es, c0);
        let o0 = es[h0].1;
        assert(es[h0].0 == c0);
        assert(0 <= o0 < 2);
        assert forall|oq: int, cq: int|
            0 <= oq < 2 && 0 <= cq < 12 implies !(#[trigger] fc2.edge_match(h0, oq, cq)) by {
            if fc2.edge_match(h0, oq, cq) {
                if cq != c0 {
                    assert forall|s: int|
                        0 <= s < 2 implies fc.faces@[#[trigger] edge_slot(cq, s)]
                        == fc2.faces@[edge_slot(cq, s)] by {
                        lemma_edge_slots(cq, s, c0, s0);
                    }
                    assert(fc.edge_match(h0, oq, cq));
                    lemma_edge_match_unique(fc, cube, h0, oq, cq);
                    assert(cq == c0);
                    assert(false);
                } else {
                    let s1 = 1 - s0;
                    assert(s1 != s0 && 0 <= s1 < 2);
                    assert(edge_slot(c0, s1) != pos) by {
                        lemma_edge_slots(c0, s1, c0, s0);
                    }
                    assert(fc2.faces@[edge_slot(c0, s1)] == fc.faces@[edge_slot(c0, s1)]);
                    assert(fc.faces@[edge_slot(c0, s1)] == edge_color(h0, (s1 + 2 - o0) % 2));
                    assert(fc2.faces@[edge_slot(c0, s1)] == edge_color(h0, (s1 + 2 - oq) % 2));
                    if oq != o0 {
                        assert((s1 + 2 - oq) % 2 != (s1 + 2 - o0) % 2);
                        lemma_edge_tuple_entries_distinct(
                            h0,
                            (s1 + 2 - oq) % 2,
                            (s1 + 2 - o0) % 2,
                        );
                        assert(false);
                    }
                    assert(fc2.faces@[edge_slot(c0, s0)] == wrong);
                    assert(fc2.faces@[edge_slot(c0, s0)] == edge_color(h0, (s0 + 2 - oq) % 2));
                    assert(fc.faces@[edge_slot(c0, s0)] == edge_color(h0, (s0 + 2 - o0) % 2));
                    assert(wrong == fc.faces@[pos]);
                    assert(false);
                }
            }
        }
        lemma_edge_scan_none(fc2, h0, 0, 0);
        assert(0 <= h0 < 12 && fc2.edge_scan(h0, 0, 0) is None);
    }
}

/// The color with the given number.
fn color_from_index(i: usize) -> (r: Color)
    requires
        i < 6,
    ensures
        r == Color::from_idx(i as int),
{
    match i {
        0 => Color::Orange,
        1 => Color::Red,
        2 => Color::Yellow,
        3 => Color::White,
        4 => Color::Green,
        _ => Color::Blue,
    }
}

/// The face number and sticker index of corner sticker `(c, s)`.
fn corner_slot_exec(c: usize, s: usize) -> (r: (usize, usize))
    requires
        c < 8,
        s < 3,
    ensures
        r.0 < 6,
        r.1 < 9,
        r.0 * 9 + r.1 == corner_slot(c as int, s as int),
{
    let col = corner_color_exec(c, s);
    let f = col.index();
    let i = corner_fidx_exec(c, s);
    (f, i)
}

/// The face number and sticker index of edge sticker `(c, s)`.
fn edge_slot_exec(c: usize, s: usize) -> (r: (usize, usize))
    requires
        c < 12,
        s < 2,
    ensures
        r.0 < 6,
        r.1 < 9,
        r.0 * 9 + r.1 == edge_slot(c as int, s as int),
{
    let col = edge_color_exec(c, s);
    let f = col.index();
    let i = edge_fidx_exec(c, s);
    (f, i)
}

/// Color `s` of the corner piece of home `h`.
fn corner_color_exec(h: usize, s: usize) -> (r: Color)
    requires
        h < 8,
        s < 3,
    ensures
        r == corner_color(h as int, s as int),
{
    let t: (Color, Color, Color) = match h {
        0 => (Color::White, Color::Orange, Color::Blue),
        1 => (Color::White, Color::Blue, Color::Red),
        2 => (Color::White, Color::Green, Color::Orange),
        3 => (Color::White, Color::Red, Color::Green),
        4 => (Color::Yellow, Color::Blue, Color::Orange),
        5 => (Color::Yellow, Color::Red, Color::Blue),
        6 => (Color::Yellow, Color::Orange, Color::Green),
        _ => (Color::Yellow, Color::Green, Color::Red),
    };
    if s == 0 {
        t.0
    } else if s == 1 {
        t.1
    } else {
        t.2
    }
}

/// Sticker index of corner sticker `(h, s)` within its face.
fn corner_fidx_exec(h: usize, s: usize) -> (r: usize)
    requires
        h < 8,
        s < 3,
    ensures
        r < 9,
        r == corner_fidx(h as int, s as int),
{
    let t: (usize, usize, usize) = match h {
        0 => (0, 0, 2),
        1 => (2, 0, 2),
        2 => (6, 0, 2),
        3 => (8, 0, 2),
        4 => (6, 8, 6),
        5 => (8, 8, 6),
        6 => (0, 8, 6),
        _ => (2, 8, 6),
    };
    if s == 0 {
        t.0
    } else if s == 1 {
        t.1
    } else {
        t.2
    }
}

/// Color `s` of the edge piece of home `h`.
fn edge_color_exec(h: usize, s: usize) -> (r: Color)
    requires
        h < 12,
        s < 2,
    ensures
        r == edge_color(h as int, s as int),
{
    let t: (Color, Color) = match h {
        0 => (Color::White, Color::Blue),
        1 => (Color::White, Color::Orange),
        2 => (Color::White, Color::Red),
        3 => (Color::White, Color::Green),
        4 => (Color::Blue, Color::Orange),
        5 => (Color::Blue, Color::Red),
        6 => (Color::Green, Color::Orange),
        7 => (Color::Green, Color::Red),
        8 => (Color::Yellow, Color::Blue),
        9 => (Color::Yellow, Color::Orange),
        10 => (Color::Yellow, Color::Red),
        _ => (Color::Yellow, Color::Green),
    };
    if s == 0 {
        t.0
    } else {
        t.1
    }
}

/// Sticker index of edge sticker `(h, s)` within its face.
fn edge_fidx_exec(h: usize, s: usize) -> (r: usize)
    requires
        h < 12,
        s < 2,
    ensures
        r < 9,
        r == edge_fidx(h as int, s as int),
{
    let t: (usize, usize) = match h {
        0 => (1, 1),
        1 => (3, 1),
        2 => (5, 1),
        3 => (7, 1),
        4 => (5, 3),
        5 => (3, 5),
        6 => (3, 5),
        7 => (5, 3),
        8 => (7, 7),
        9 => (3, 7),
        10 => (5, 7),
        _ => (1, 7),
    };
    if s == 0 {
        t.0
    } else {
        t.1
    }
}

/// Builds a [`FaceletCube`] sticker by sticker, tracking which stickers
/// have been set.
#[derive(Debug)]
pub struct FaceletCubeBuilder {
    pub initialized: [bool; 54],
    pub faces: [Color; 54],
}

impl FaceletCubeBuilder {
    /// The finished cube; `None` if some sticker was never set.
    pub fn build(self) -> (r: Option<FaceletCube>)
        ensures
            r is Some <==> (forall|t: int| 0 <= t < 54 ==> #[trigger] self.initialized@[t]),
            r matches Some(fc) ==> fc.faces@ == self.faces@,
    {
        let mut t: usize = 0;
        let mut all = true;
        while t < 54
            invariant
                t <= 54,
                all == (forall|u: int| 0 <= u < t ==> #[trigger] self.initialized@[u]),
            decreases 54 - t,
        {
            all = all && self.initialized[t];
            t += 1;
        }
        if all {
            Some(FaceletCube { faces: self.faces })
        } else {
            None
        }
    }

    /// Sets the sticker at the given index of the given color's face.
    pub fn set(&mut self, face: Color, index: usize, set_to: Color)
        requires
            index <= 8,
        ensures
            final(self).faces@ == old(self).faces@.update(face.idx() * 9 + index, set_to),
            final(self).initialized@ == old(self).initialized@.update(
                face.idx() * 9 + index,
                true,
            ),
    {
        let f = face.index();
        self.initialized[f * 9 + index] = true;
        self.faces[f * 9 + index] = set_to;
    }
}

} // verus!
