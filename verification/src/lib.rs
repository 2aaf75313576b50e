//! A cube-state algebra and representation-conversion engine for the
//! 3x3x3 Rubik's Cube.
//!
//! The cube is modelled as an element of its permutation/orientation group:
//! 8 corner slots and 12 edge slots, each holding a piece with an
//! orientation. The crate offers the group operations (compose, invert,
//! apply a face turn), legality checks based on orientation sums and
//! permutation parity, compact search coordinates with move-transition
//! tables, and a lossless conversion to and from a 54-sticker facelet form.

use vstd::prelude::*;

pub mod cubie;
pub mod permutation;
pub mod algebra;
pub mod cubie_cube;
pub mod iter_2cycles;
pub mod random;
pub mod moves;
pub mod move_parity;
pub mod radix;
pub mod coords;
pub mod facelet_cube;
pub mod coord_cube;
pub mod cubiestate;
pub mod cubicle_indexed;
pub mod cubestate;
pub mod dumb;

verus! {

/// One of the 18 face turns: each of the six faces can be turned a quarter
/// turn clockwise, a quarter turn counter-clockwise (the `i` suffix), or a
/// half turn (the `2` suffix).
#[derive(Debug, Copy, Clone, Eq, PartialEq, Structural)]
pub enum Move {
    Li,
    L,
    L2,
    Ri,
    R,
    R2,
    Di,
    D,
    D2,
    Ui,
    U,
    U2,
    Fi,
    F,
    F2,
    Bi,
    B,
    B2,
}

impl Move {
    /// The number of this move in the fixed order of [`Move::all`].
    pub open spec fn idx(self) -> int {
        match self {
            Move::Li => 0,
            Move::L => 1,
            Move::L2 => 2,
            Move::Ri => 3,
            Move::R => 4,
            Move::R2 => 5,
            Move::Di => 6,
            Move::D => 7,
            Move::D2 => 8,
            Move::Ui => 9,
            Move::U => 10,
            Move::U2 => 11,
            Move::Fi => 12,
            Move::F => 13,
            Move::F2 => 14,
            Move::Bi => 15,
            Move::B => 16,
            Move::B2 => 17,
        }
    }

    /// The number of this move, as a machine integer.
    pub fn index(self) -> (r: usize)
        ensures
            r == self.idx(),
            r < 18,
    {
        match self {
            Move::Li => 0,
            Move::L => 1,
            Move::L2 => 2,
            Move::Ri => 3,
            Move::R => 4,
            Move::R2 => 5,
            Move::Di => 6,
            Move::D => 7,
            Move::D2 => 8,
            Move::Ui => 9,
            Move::U => 10,
            Move::U2 => 11,
            Move::Fi => 12,
            Move::F => 13,
            Move::F2 => 14,
            Move::Bi => 15,
            Move::B => 16,
            Move::B2 => 17,
        }
    }

    /// The characters of this move's display form.
    pub open spec fn notation_spec(self) -> Seq<char> {
        match self {
            Move::Li => "L'"@,
            Move::L => "L"@,
            Move::L2 => "L2"@,
            Move::Ri => "R'"@,
            Move::R => "R"@,
            Move::R2 => "R2"@,
            Move::Di => "D'"@,
            Move::D => "D"@,
            Move::D2 => "D2"@,
            Move::Ui => "U'"@,
            Move::U => "U"@,
            Move::U2 => "U2"@,
            Move::Fi => "F'"@,
            Move::F => "F"@,
            Move::F2 => "F2"@,
            Move::Bi => "B'"@,
            Move::B => "B"@,
            Move::B2 => "B2"@,
        }
    }

    /// The display form in cube notation: the face letter, with a `'`
    /// suffix for a counter-clockwise turn and a `2` suffix for a half
    /// turn.
    pub fn notation(self) -> (r: String)
        ensures
            r@ == self.notation_spec(),
    {
        broadcast use vstd::string::to_string_from_display_ensures_for_str;

        match self {
            Move::Li => "L'".to_string(),
            Move::L => "L".to_string(),
            Move::L2 => "L2".to_string(),
            Move::Ri => "R'".to_string(),
            Move::R => "R".to_string(),
            Move::R2 => "R2".to_string(),
            Move::Di => "D'".to_string(),
            Move::D => "D".to_string(),
            Move::D2 => "D2".to_string(),
            Move::Ui => "U'".to_string(),
            Move::U => "U".to_string(),
            Move::U2 => "U2".to_string(),
            Move::Fi => "F'".to_string(),
            Move::F => "F".to_string(),
            Move::F2 => "F2".to_string(),
            Move::Bi => "B'".to_string(),
            Move::B => "B".to_string(),
            Move::B2 => "B2".to_string(),
        }
    }

    /// Every move, in a fixed order.
    pub fn all() -> (r: Vec<Move>)
        ensures
            r@.len() == 18,
            forall|i: int| 0 <= i < 18 ==> (#[trigger] r@[i]).idx() == i,
    {
        let mut v: Vec<Move> = Vec::new();
        v.push(Move::Li);
        v.push(Move::L);
        v.push(Move::L2);
        v.push(Move::Ri);
        v.push(Move::R);
        v.push(Move::R2);
        v.push(Move::Di);
        v.push(Move::D);
        v.push(Move::D2);
        v.push(Move::Ui);
        v.push(Move::U);
        v.push(Move::U2);
        v.push(Move::Fi);
        v.push(Move::F);
        v.push(Move::F2);
        v.push(Move::Bi);
        v.push(Move::B);
        v.push(Move::B2);
        assert(forall|i: int| 0 <= i < 18 ==> (#[trigger] v@[i]).idx() == i);
        v
    }
}

} // verus!
