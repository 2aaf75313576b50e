use cubestruct::cubie_cube::CubieCube;
use cubestruct::facelet_cube::{Color, FaceletConversionError, FaceletCube};
use cubestruct::dumb::DumbCube;
use cubestruct::cubestate::CubeState;
use cubestruct::cubie::{CornerOrientation, EdgeOrientation};
use cubestruct::dumb::{corner_shift, edge_shift};

fn faces_flat(faces: [[Color; 9]; 6]) -> [Color; 54] {
    let mut flat = [Color::Blue; 54];
    for f in 0..6 {
        for i in 0..9 {
            flat[f * 9 + i] = faces[f][i];
        }
    }
    flat
}

fn tperm_faces() -> [Color; 54] {
    faces_flat([
        [Color::Orange, Color::Red, Color::Orange, Color::Orange, Color::Orange, Color::Orange, Color::Orange, Color::Orange, Color::Orange],
        [Color::Blue, Color::Orange, Color::Green, Color::Red, Color::Red, Color::Red, Color::Red, Color::Red, Color::Red],
        [Color::Yellow, Color::Yellow, Color::Yellow, Color::Yellow, Color::Yellow, Color::Yellow, Color::Yellow, Color::Yellow, Color::Yellow],
        [Color::White, Color::White, Color::White, Color::White, Color::White, Color::White, Color::White, Color::White, Color::White],
        [Color::Green, Color::Green, Color::Red, Color::Green, Color::Green, Color::Green, Color::Green, Color::Green, Color::Green],
        [Color::Red, Color::Blue, Color::Blue, Color::Blue, Color::Blue, Color::Blue, Color::Blue, Color::Blue, Color::Blue],
    ])
}

fn rmove_faces() -> [Color; 54] {
    faces_flat([
        [Color::Orange, Color::Orange, Color::Orange, Color::Orange, Color::Orange, Color::Orange, Color::Orange, Color::Orange, Color::Orange],
        [Color::Red, Color::Red, Color::Red, Color::Red, Color::Red, Color::Red, Color::Red, Color::Red, Color::Red],
        [Color::Yellow, Color::Yellow, Color::Blue, Color::Yellow, Color::Yellow, Color::Blue, Color::Yellow, Color::Yellow, Color::Blue],
        [Color::White, Color::White, Color::Green, Color::White, Color::White, Color::Green, Color::White, Color::White, Color::Green],
        [Color::Green, Color::Green, Color::Yellow, Color::Green, Color::Green, Color::Yellow, Color::Green, Color::Green, Color::Yellow],
        [Color::White, Color::Blue, Color::Blue, Color::White, Color::Blue, Color::Blue, Color::White, Color::Blue, Color::Blue],
    ])
}

#[test]
fn facelet_cube_conversions() {
    let solved = CubieCube::solved();
    assert_eq!(solved.to_facelet_cube().to_cubie_cube().unwrap(), solved);

    let tperm = FaceletCube { faces: tperm_faces() };
    assert_eq!(tperm, tperm.to_cubie_cube().unwrap().to_facelet_cube());

    let rmove = FaceletCube { faces: rmove_faces() };
    assert_eq!(rmove, rmove.to_cubie_cube().unwrap().to_facelet_cube());
}

#[test]
fn dumb_conversions() {
    let solved = CubeState::solved();
    assert_eq!(solved.to_dumb().to_cubestate().unwrap(), solved);

    let tperm_dumb = DumbCube { inner: FaceletCube { faces: tperm_faces() } };
    let tperm_cubestate = tperm_dumb.to_cubestate().unwrap();

    assert_eq!(tperm_dumb, tperm_cubestate.to_dumb());
    assert_eq!(tperm_cubestate, tperm_cubestate.to_dumb().to_cubestate().unwrap());
}

#[test]
fn single_sticker_edit_fails() {
    // every single-sticker edit of a solved cube, centers aside, leaves
    // some piece's color tuple unmatched anywhere
    let solved = CubieCube::solved().to_facelet_cube();
    for pos in 0..54 {
        if pos % 9 == 4 {
            // center stickers are not read by the decoder
            continue;
        }
        for wrong in Color::all() {
            if wrong == solved.faces[pos] {
                continue;
            }
            let mut edited = solved;
            edited.faces[pos] = wrong;
            match edited.to_cubie_cube() {
                Err(FaceletConversionError::CornerCubieNotFound { .. }) => {}
                Err(FaceletConversionError::EdgeCubieNotFound { .. }) => {}
                other => panic!("expected a not-found error, got {other:?}"),
            }
        }
    }
}

#[test]
fn builder_requires_all_stickers() {
    let mut b = FaceletCube::builder();
    assert!(b.build().is_none());

    b = FaceletCube::builder();
    let solved = CubieCube::solved().to_facelet_cube();
    for f in Color::all() {
        for i in 0..9 {
            b.set(f, i, solved.get_face(f)[i]);
        }
    }
    let built = b.build().unwrap();
    assert_eq!(built, solved);

    let mut db = DumbCube::builder();
    assert!(db.build().is_none());
    db = DumbCube::builder();
    for f in Color::all() {
        for i in 0..9 {
            db.set(f, i, f);
        }
    }
    let built = db.build().unwrap();
    assert_eq!(built.to_cubestate().unwrap(), CubeState::solved());
}

#[test]
fn shifts_rotate_colors() {
    assert_eq!(corner_shift([Color::White, Color::Orange, Color::Blue], CornerOrientation::O0), [Color::White, Color::Orange, Color::Blue]);
    assert_eq!(corner_shift([Color::White, Color::Orange, Color::Blue], CornerOrientation::O1), [Color::Blue, Color::White, Color::Orange]);
    assert_eq!(corner_shift([Color::White, Color::Orange, Color::Blue], CornerOrientation::O2), [Color::Orange, Color::Blue, Color::White]);
    assert_eq!(edge_shift([Color::White, Color::Blue], EdgeOrientation::O0), [Color::White, Color::Blue]);
    assert_eq!(edge_shift([Color::White, Color::Blue], EdgeOrientation::O1), [Color::Blue, Color::White]);
}
