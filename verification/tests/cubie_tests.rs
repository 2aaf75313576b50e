use cubestruct::cubie::{
    CornerCubicle, CornerCubie, CornerOrientation, EdgeCubicle, EdgeCubie, EdgeOrientation,
};
use cubestruct::cubiestate::{CornerState, EdgeState};
use cubestruct::Move;

#[test]
fn cubie_cornerstate() {
    for c in CornerCubicle::all() {
        for o in CornerOrientation::all() {
            let state = CornerCubie::new(c, o);
            assert_eq!(c, state.cubicle());
            assert_eq!(o, state.orientation());
        }
    }
}

#[test]
fn cubie_edgestate() {
    for c in EdgeCubicle::all() {
        for o in EdgeOrientation::all() {
            let state = EdgeCubie::new(c, o);
            assert_eq!(c, state.cubicle());
            assert_eq!(o, state.orientation());
        }
    }
}

#[test]
fn cubiestate_cornerstate() {
    for c in CornerCubicle::all() {
        for o in CornerOrientation::all() {
            let state = CornerState::new(c, o);
            assert_eq!(c, state.cubicle());
            assert_eq!(o, state.orientation());
        }
    }
}

#[test]
fn cubiestate_edgestate() {
    for c in EdgeCubicle::all() {
        for o in EdgeOrientation::all() {
            let state = EdgeState::new(c, o);
            assert_eq!(c, state.cubicle());
            assert_eq!(o, state.orientation());
        }
    }
}

#[test]
fn move_notation() {
    assert_eq!(Move::R.notation(), "R");
    assert_eq!(Move::Ri.notation(), "R'");
    assert_eq!(Move::R2.notation(), "R2");
    assert_eq!(Move::Ui.notation(), "U'");
    assert_eq!(Move::all().len(), 18);
}
