use cubestruct::cubie::{
    CornerCubicle, CornerCubie, CornerOrientation, CubicleArray, EdgeCubicle, EdgeCubie,
    EdgeOrientation,
};
use cubestruct::cubie_cube::{CubieCube, CubieCubeConstructionError};
use cubestruct::Move;
use cubestruct::coords::PieceKind;

fn corners_of(spec: [(CornerCubicle, CornerOrientation); 8]) -> CubicleArray<CornerCubie, 8> {
    CubicleArray::new([
        CornerCubie::new(spec[0].0, spec[0].1),
        CornerCubie::new(spec[1].0, spec[1].1),
        CornerCubie::new(spec[2].0, spec[2].1),
        CornerCubie::new(spec[3].0, spec[3].1),
        CornerCubie::new(spec[4].0, spec[4].1),
        CornerCubie::new(spec[5].0, spec[5].1),
        CornerCubie::new(spec[6].0, spec[6].1),
        CornerCubie::new(spec[7].0, spec[7].1),
    ])
}

fn edges_of(spec: [(EdgeCubicle, EdgeOrientation); 12]) -> CubicleArray<EdgeCubie, 12> {
    CubicleArray::new([
        EdgeCubie::new(spec[0].0, spec[0].1),
        EdgeCubie::new(spec[1].0, spec[1].1),
        EdgeCubie::new(spec[2].0, spec[2].1),
        EdgeCubie::new(spec[3].0, spec[3].1),
        EdgeCubie::new(spec[4].0, spec[4].1),
        EdgeCubie::new(spec[5].0, spec[5].1),
        EdgeCubie::new(spec[6].0, spec[6].1),
        EdgeCubie::new(spec[7].0, spec[7].1),
        EdgeCubie::new(spec[8].0, spec[8].1),
        EdgeCubie::new(spec[9].0, spec[9].1),
        EdgeCubie::new(spec[10].0, spec[10].1),
        EdgeCubie::new(spec[11].0, spec[11].1),
    ])
}

fn rmove() -> CubieCube {
    CubieCube::try_new(
        corners_of([
            (CornerCubicle::C0, CornerOrientation::O0),
            (CornerCubicle::C5, CornerOrientation::O2),
            (CornerCubicle::C2, CornerOrientation::O0),
            (CornerCubicle::C1, CornerOrientation::O1),
            (CornerCubicle::C4, CornerOrientation::O0),
            (CornerCubicle::C7, CornerOrientation::O1),
            (CornerCubicle::C6, CornerOrientation::O0),
            (CornerCubicle::C3, CornerOrientation::O2),
        ]),
        edges_of([
            (EdgeCubicle::C0, EdgeOrientation::O0),
            (EdgeCubicle::C1, EdgeOrientation::O0),
            (EdgeCubicle::C5, EdgeOrientation::O0),
            (EdgeCubicle::C3, EdgeOrientation::O0),
            (EdgeCubicle::C4, EdgeOrientation::O0),
            (EdgeCubicle::C10, EdgeOrientation::O0),
            (EdgeCubicle::C6, EdgeOrientation::O0),
            (EdgeCubicle::C2, EdgeOrientation::O0),
            (EdgeCubicle::C8, EdgeOrientation::O0),
            (EdgeCubicle::C9, EdgeOrientation::O0),
            (EdgeCubicle::C7, EdgeOrientation::O0),
            (EdgeCubicle::C11, EdgeOrientation::O0),
        ]),
    )
    .unwrap()
}

fn tperm() -> CubieCube {
    CubieCube::try_new(
        corners_of([
            (CornerCubicle::C0, CornerOrientation::O0),
            (CornerCubicle::C3, CornerOrientation::O0),
            (CornerCubicle::C2, CornerOrientation::O0),
            (CornerCubicle::C1, CornerOrientation::O0),
            (CornerCubicle::C4, CornerOrientation::O0),
            (CornerCubicle::C5, CornerOrientation::O0),
            (CornerCubicle::C6, CornerOrientation::O0),
            (CornerCubicle::C7, CornerOrientation::O0),
        ]),
        edges_of([
            (EdgeCubicle::C0, EdgeOrientation::O0),
            (EdgeCubicle::C2, EdgeOrientation::O0),
            (EdgeCubicle::C1, EdgeOrientation::O0),
            (EdgeCubicle::C3, EdgeOrientation::O0),
            (EdgeCubicle::C4, EdgeOrientation::O0),
            (EdgeCubicle::C5, EdgeOrientation::O0),
            (EdgeCubicle::C6, EdgeOrientation::O0),
            (EdgeCubicle::C7, EdgeOrientation::O0),
            (EdgeCubicle::C8, EdgeOrientation::O0),
            (EdgeCubicle::C9, EdgeOrientation::O0),
            (EdgeCubicle::C10, EdgeOrientation::O0),
            (EdgeCubicle::C11, EdgeOrientation::O0),
        ]),
    )
    .unwrap()
}

#[test]
fn cubie_cube_possible_states() {
    assert!(CubieCube::solved().is_possible_state());
    assert!(tperm().is_possible_state());
    assert!(rmove().is_possible_state());

    let one_edge_flipped = {
        let mut ret = CubieCube::solved();
        let mut e = *ret.edges.get(0);
        e.set_orientation(EdgeOrientation::O1);
        ret.edges.set(0, e);
        ret
    };
    assert!(!one_edge_flipped.is_possible_state());

    let two_corners_swapped = {
        let mut ret = CubieCube::solved();
        ret.corners.swap(0, 1);
        ret
    };
    assert!(!two_corners_swapped.is_possible_state());
}

#[test]
fn construction_fails_on_duplicate_cubicle() {
    let solved = CubieCube::solved();
    let mut corners = solved.corners;
    // two pieces claim cubicle 0; cubicle 1 is empty
    corners.set(1, CornerCubie::new(CornerCubicle::C0, CornerOrientation::O0));
    let r = CubieCube::try_new(corners, solved.edges);
    assert_eq!(r, Err(CubieCubeConstructionError::EmptyCubicles));
}

#[test]
fn cubie_cube_random_possible_states_are_possible() {
    for _ in 0..1000 {
        let state = CubieCube::random_possible();
        assert!(state.is_possible_state(), "{state:?}");
    }
}

#[test]
fn random_states_vary() {
    // a broken source of randomness (or a shuffle that hands its input
    // back unchanged) would keep every draw at the solved permutation
    let solved_slice = CubieCube::solved().get_udslice_coord();
    let mut saw_moved_slice = false;
    for _ in 0..100 {
        let state = CubieCube::random_possible();
        if state.get_udslice_coord() != solved_slice {
            saw_moved_slice = true;
        }
    }
    assert!(saw_moved_slice);
}

#[test]
fn move_application() {
    let mut t = CubieCube::solved();
    for moov in [Move::R, Move::U, Move::Ri, Move::Ui, Move::Ri, Move::F, Move::R2, Move::Ui,
        Move::Ri, Move::Ui, Move::R, Move::U, Move::Ri, Move::Fi]
    {
        t.apply_move(moov);
    }
    assert_eq!(t, tperm());

    let mut r = CubieCube::solved();
    r.apply_move(Move::R);
    assert_eq!(r, rmove());
    r.apply_move(Move::Ri);
    assert_eq!(r, CubieCube::solved());
}

#[test]
fn cubie_cube_group_ops() {
    let solved = CubieCube::solved();
    let rm = rmove();
    let tp = tperm();
    assert_eq!(solved, solved.inverse());
    assert_eq!(solved.compose(&solved), solved);
    assert_eq!(rm.compose(&solved), rm);
    assert_eq!(solved.compose(&tp), tp);

    assert_eq!(tp.inverse(), tp);
    assert_eq!(tp.compose(&tp.inverse()), solved);
    assert_eq!(tp.compose(&tp), solved);

    assert_ne!(rm.inverse(), rm);
    assert_ne!(rm.inverse(), solved);
    assert_ne!(rm.compose(&rm), rm);
    assert_ne!(rm.compose(&rm), solved);
    assert_ne!(rm.compose(&rm).compose(&rm), solved);
    assert_eq!(rm.compose(&rm).compose(&rm).compose(&rm), solved);

    assert_eq!(solved, tp.compose(&rm).compose(&rm.inverse()).compose(&tp.inverse()));
}

#[test]
fn set_ori_coord() {
    let mut cube = CubieCube::solved();
    for coord in 0..2187u16 {
        cube.set_ori_coord(PieceKind::Corner, coord);
        assert!(cube.is_possible_state());
        assert_eq!(cube.get_ori_coord(PieceKind::Corner), coord);
    }
    for coord in 0..2048u16 {
        cube.set_ori_coord(PieceKind::Edge, coord);
        assert!(cube.is_possible_state());
        assert_eq!(cube.get_ori_coord(PieceKind::Edge), coord);
    }
}

#[test]
fn set_udslice_coord() {
    let mut cube = CubieCube::solved();
    for coord in 0..495u16 {
        cube.set_udslice_coord(coord);
        assert_eq!(cube.get_udslice_coord(), coord);
        assert!(cube.is_possible_state());
        assert!(CubieCube::try_new(cube.corners, cube.edges).is_ok());
    }
}
