//! The sticker form of the plain cube-state API.
//!
//! A [`DumbCube`] is just an array of 6 faces of 9 colors each, wrapping
//! the verified [`FaceletCube`], with conversions to and from
//! [`CubeState`].

use vstd::prelude::*;
use crate::cubestate::{CubeState, CubeStateConstructionError};
use crate::cubie::{CornerCubicle, CornerOrientation, EdgeCubicle, EdgeOrientation};
use crate::facelet_cube::{renders, FaceletConversionError, FaceletCube, FaceletCubeBuilder};

pub use crate::facelet_cube::Color;

verus! {

/// A cube as an array of 6 faces of 9 colors.
#[derive(Debug, Copy, Clone, Eq, PartialEq)]
pub struct DumbCube {
    pub inner: FaceletCube,
}

/// The error of [`DumbCube::to_cubestate`].
#[derive(Debug, Copy, Clone, Eq, PartialEq, Structural)]
pub enum DumbConversionError {
    /// No cubicle shows the sticker colors of the corner piece that
    /// lives in `cubicle`, under any orientation.
    CornerCubieNotFound { cubicle: CornerCubicle },
    /// No cubicle shows the sticker colors of the edge piece that lives
    /// in `cubicle`, under any orientation.
    EdgeCubieNotFound { cubicle: EdgeCubicle },
    /// Each piece was found somewhere, but the assignment is not a
    /// permutation.
    CubeStateConstruction(CubeStateConstructionError),
}

impl DumbCube {
    /// A builder that tracks which stickers have been set.
    pub fn builder() -> (r: DumbCubeBuilder)
        ensures
            forall|t: int| 0 <= t < 54 ==> !(#[trigger] r.inner.initialized@[t]),
    {
        DumbCubeBuilder { inner: FaceletCube::builder() }
    }

    /// Decodes stickers back into a cube state; see
    /// [`FaceletCube::to_cubie_cube`] for the search this runs.
    pub fn to_cubestate(&self) -> (r: Result<CubeState, DumbConversionError>)
        ensures
            r matches Ok(cube) ==> {
                &&& cube.wf()
                &&& forall|h: int|
                    0 <= h < 8 ==> self.inner.corner_scan(h, 0, 0) == Some(
                        (
                            (#[trigger] cube.corner_states()[h]).0,
                            cube.corner_states()[h].1,
                        ),
                    )
                &&& forall|h: int|
                    0 <= h < 12 ==> self.inner.edge_scan(h, 0, 0) == Some(
                        ((#[trigger] cube.edge_states()[h]).0, cube.edge_states()[h].1),
                    )
            },
            r matches Err(e) ==> {
                ||| (e matches DumbConversionError::CornerCubieNotFound { cubicle }
                    && self.inner.corner_scan(cubicle.idx(), 0, 0) is None)
                ||| (e matches DumbConversionError::EdgeCubieNotFound { cubicle }
                    && self.inner.edge_scan(cubicle.idx(), 0, 0) is None)
                ||| (e matches DumbConversionError::CubeStateConstruction(ce)
                    && ce == CubeStateConstructionError::EmptyCubicles && (forall|h: int|
                        0 <= h < 8 ==> (#[trigger] self.inner.corner_scan(h, 0, 0)) is Some) && (
                    forall|h: int|
                        0 <= h < 12 ==> (#[trigger] self.inner.edge_scan(h, 0, 0)) is Some) && !(
                    crate::permutation::is_permutation(self.inner.corner_scan_perm())
                        && crate::permutation::is_permutation(self.inner.edge_scan_perm())))
            },
    {
        match self.inner.to_cubie_cube() {
            Ok(inner) => Ok(CubeState { inner }),
            Err(FaceletConversionError::CornerCubieNotFound { cubicle }) => Err(
                DumbConversionError::CornerCubieNotFound { cubicle },
            ),
            Err(FaceletConversionError::EdgeCubieNotFound { cubicle }) => Err(
                DumbConversionError::EdgeCubieNotFound { cubicle },
            ),
            Err(FaceletConversionError::CubieCubeConstruction(_)) => Err(
                DumbConversionError::CubeStateConstruction(
                    CubeStateConstructionError::EmptyCubicles,
                ),
            ),
        }
    }

    /// Renders a cube state as stickers.
    pub fn from_cubestate(state: &CubeState) -> (r: Self)
        requires
            state.wf(),
        ensures
            renders(r.inner.faces@, state.inner),
    {
        DumbCube { inner: FaceletCube::from_cubie_cube(&state.inner) }
    }

    /// The face of the given center color, stickers 0 to 8 in row-major
    /// order.
    pub fn get_face(&self, center: Color) -> (r: [Color; 9])
        ensures
            forall|i: int| 0 <= i < 9 ==> #[trigger] r@[i] == self.inner.facelet(center.idx(), i),
    {
        self.inner.get_face(center)
    }
}

/// Rotates a corner's colors from the given solved orientation into the
/// orientation `orientation`.
pub fn corner_shift(colors: [Color; 3], orientation: CornerOrientation) -> (r: [Color; 3])
    ensures
        forall|s: int| 0 <= s < 3 ==> #[trigger] r@[s] == colors@[(s + 3 - orientation.idx()) % 3],
{
    let r = match orientation {
        CornerOrientation::O0 => [colors[0], colors[1], colors[2]],
        CornerOrientation::O1 => [colors[2], colors[0], colors[1]],
        CornerOrientation::O2 => [colors[1], colors[2], colors[0]],
    };
    proof {
        assert forall|s: int| 0 <= s < 3 implies #[trigger] r@[s] == colors@[(s + 3
            - orientation.idx()) % 3] by {
            if s == 0 {
            } else if s == 1 {
            } else {
            }
        }
    }
    r
}

/// Flips an edge's colors from the given solved orientation into the
/// orientation `orientation`.
pub fn edge_shift(colors: [Color; 2], orientation: EdgeOrientation) -> (r: [Color; 2])
    ensures
        forall|s: int| 0 <= s < 2 ==> #[trigger] r@[s] == colors@[(s + 2 - orientation.idx()) % 2],
{
    let r = match orientation {
        EdgeOrientation::O0 => [colors[0], colors[1]],
        EdgeOrientation::O1 => [colors[1], colors[0]],
    };
    proof {
        assert forall|s: int| 0 <= s < 2 implies #[trigger] r@[s] == colors@[(s + 2
            - orientation.idx()) % 2] by {
            if s == 0 {
            } else {
            }
        }
    }
    r
}

/// Builds a [`DumbCube`] sticker by sticker.
#[derive(Debug)]
pub struct DumbCubeBuilder {
    pub inner: FaceletCubeBuilder,
}

impl DumbCubeBuilder {
    /// The finished cube; `None` if some sticker was never set.
    pub fn build(self) -> (r: Option<DumbCube>)
        ensures
            r is Some <==> (forall|t: int| 0 <= t < 54 ==> #[trigger] self.inner.initialized@[t]),
            r matches Some(dc) ==> dc.inner.faces@ == self.inner.faces@,
    {
        match self.inner.build() {
            Some(fc) => Some(DumbCube { inner: fc }),
            None => None,
        }
    }

    /// Sets the sticker at the given index of the given color's face.
    pub fn set(&mut self, face: Color, index: usize, set_to: Color)
        requires
            index <= 8,
        ensures
            final(self).inner.faces@ == old(self).inner.faces@.update(
                face.idx() * 9 + index,
                set_to,
            ),
            final(self).inner.initialized@ == old(self).inner.initialized@.update(
                face.idx() * 9 + index,
                true,
            ),
    {
        self.inner.set(face, index, set_to);
    }
}

} // verus!
