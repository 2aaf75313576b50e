use cubestruct::coords::{udslice_bitmask_to_coord, udslice_coord_to_bitmask, PieceKind};
use cubestruct::coord_cube::{CoordCube, MoveTables};
use cubestruct::cubie_cube::CubieCube;
use cubestruct::Move;

#[test]
fn udslice_to_from_bitmask() {
    for i in 0u16..=0xf00 {
        if i.count_ones() == 4 {
            println!("{i:b}");
            assert_eq!(udslice_coord_to_bitmask(udslice_bitmask_to_coord(i)), i);
        }
    }
}

#[test]
fn assert_valid_coord_ranges_for_random_cubie_cubes() {
    for _ in 0..1000 {
        let cubie_cube = CubieCube::random_possible();
        let coord_cube = CoordCube::from_cubie_cube(&cubie_cube);
        assert!(coord_cube.corner_ori < 2187, "Invalid corner_ori coord: {}", coord_cube.corner_ori);
        assert!(coord_cube.edge_ori < 2048, "Invalid edge_ori coord: {}", coord_cube.edge_ori);
        assert!(coord_cube.udslice < 495, "Invalid udslice coord: {}", coord_cube.udslice);
    }
}

#[test]
fn coord_round_trip() {
    let cc = CoordCube { corner_ori: 1234, edge_ori: 567, udslice: 89 };
    let cube = cc.to_cubie_cube();
    assert!(cube.is_possible_state());
    assert_eq!(CoordCube::from_cubie_cube(&cube), cc);
}

#[test]
fn move_tables_match_full_moves() {
    let tables = MoveTables::new();
    for moov in [Move::R, Move::Ui, Move::F2, Move::B] {
        for _ in 0..20 {
            let mut cube = CubieCube::random_possible();
            let mut coords = CoordCube::from_cubie_cube(&cube);
            coords.apply_move(moov, &tables);
            cube.apply_move(moov);
            assert_eq!(coords, CoordCube::from_cubie_cube(&cube));
        }
    }
}
