use cubestruct::cubicle_indexed::{CornerCubicleIndexed, EdgeCubicleIndexed};
use cubestruct::cubiestate::{
    CornerCubicle, CornerOrientation, CornerState, EdgeCubicle, EdgeOrientation, EdgeState,
};
use cubestruct::cubestate::CubeState;

fn state_of(
    corners: [(CornerCubicle, CornerOrientation); 8],
    edges: [(EdgeCubicle, EdgeOrientation); 12],
) -> CubeState {
    let ca = CornerCubicleIndexed::new([
        CornerState::new(corners[0].0, corners[0].1),
        CornerState::new(corners[1].0, corners[1].1),
        CornerState::new(corners[2].0, corners[2].1),
        CornerState::new(corners[3].0, corners[3].1),
        CornerState::new(corners[4].0, corners[4].1),
        CornerState::new(corners[5].0, corners[5].1),
        CornerState::new(corners[6].0, corners[6].1),
        CornerState::new(corners[7].0, corners[7].1),
    ]);
    let ea = EdgeCubicleIndexed::new([
        EdgeState::new(edges[0].0, edges[0].1),
        EdgeState::new(edges[1].0, edges[1].1),
        EdgeState::new(edges[2].0, edges[2].1),
        EdgeState::new(edges[3].0, edges[3].1),
        EdgeState::new(edges[4].0, edges[4].1),
        EdgeState::new(edges[5].0, edges[5].1),
        EdgeState::new(edges[6].0, edges[6].1),
        EdgeState::new(edges[7].0, edges[7].1),
        EdgeState::new(edges[8].0, edges[8].1),
        EdgeState::new(edges[9].0, edges[9].1),
        EdgeState::new(edges[10].0, edges[10].1),
        EdgeState::new(edges[11].0, edges[11].1),
    ]);
    CubeState::try_new(ca, ea).unwrap()
}

fn solved_edges() -> [(EdgeCubicle, EdgeOrientation); 12] {
    [
        (EdgeCubicle::C0, EdgeOrientation::O0),
        (EdgeCubicle::C1, EdgeOrientation::O0),
        (EdgeCubicle::C2, EdgeOrientation::O0),
        (EdgeCubicle::C3, EdgeOrientation::O0),
        (EdgeCubicle::C4, EdgeOrientation::O0),
        (EdgeCubicle::C5, EdgeOrientation::O0),
        (EdgeCubicle::C6, EdgeOrientation::O0),
        (EdgeCubicle::C7, EdgeOrientation::O0),
        (EdgeCubicle::C8, EdgeOrientation::O0),
        (EdgeCubicle::C9, EdgeOrientation::O0),
        (EdgeCubicle::C10, EdgeOrientation::O0),
        (EdgeCubicle::C11, EdgeOrientation::O0),
    ]
}

fn tperm() -> CubeState {
    state_of(
        [
            (CornerCubicle::C0, CornerOrientation::O0),
            (CornerCubicle::C3, CornerOrientation::O0),
            (CornerCubicle::C2, CornerOrientation::O0),
            (CornerCubicle::C1, CornerOrientation::O0),
            (CornerCubicle::C4, CornerOrientation::O0),
            (CornerCubicle::C5, CornerOrientation::O0),
            (CornerCubicle::C6, CornerOrientation::O0),
            (CornerCubicle::C7, CornerOrientation::O0),
        ],
        [
            (EdgeCubicle::C0, EdgeOrientation::O0),
            (EdgeCubicle::C2, EdgeOrientation::O0),
            (EdgeCubicle::C1, EdgeOrientation::O0),
            (EdgeCubicle::C3, EdgeOrientation::O0),
            (EdgeCubicle::C4, EdgeOrientation::O0),
            (EdgeCubicle::C5, EdgeOrientation::O0),
            (EdgeCubicle::C6, EdgeOrientation::O0),
            (EdgeCubicle::C7, EdgeOrientation::O0),
            (EdgeCubicle::C8, EdgeOrientation::O0),
            (EdgeCubicle::C9, EdgeOrientation::O0),
            (EdgeCubicle::C10, EdgeOrientation::O0),
            (EdgeCubicle::C11, EdgeOrientation::O0),
        ],
    )
}

fn rmove() -> CubeState {
    state_of(
        [
            (CornerCubicle::C0, CornerOrientation::O0),
            (CornerCubicle::C5, CornerOrientation::O2),
            (CornerCubicle::C2, CornerOrientation::O0),
            (CornerCubicle::C1, CornerOrientation::O1),
            (CornerCubicle::C4, CornerOrientation::O0),
            (CornerCubicle::C7, CornerOrientation::O1),
            (CornerCubicle::C6, CornerOrientation::O0),
            (CornerCubicle::C3, CornerOrientation::O2),
        ],
        [
            (EdgeCubicle::C0, EdgeOrientation::O0),
            (EdgeCubicle::C1, EdgeOrientation::O0),
            (EdgeCubicle::C5, EdgeOrientation::O0),
            (EdgeCubicle::C3, EdgeOrientation::O0),
            (EdgeCubicle::C4, EdgeOrientation::O0),
            (EdgeCubicle::C10, EdgeOrientation::O0),
            (EdgeCubicle::C6, EdgeOrientation::O0),
            (EdgeCubicle::C2, EdgeOrientation::O0),
            (EdgeCubicle::C8, EdgeOrientation::O0),
            (EdgeCubicle::C9, EdgeOrientation::O0),
            (EdgeCubicle::C7, EdgeOrientation::O0),
            (EdgeCubicle::C11, EdgeOrientation::O0),
        ],
    )
}

#[test]
fn cubestate_possible_states() {
    assert!(CubeState::solved().is_possible_state());
    assert!(tperm().is_possible_state());
    assert!(rmove().is_possible_state());

    let one_edge_flipped = {
        let mut edges = solved_edges();
        edges[0] = (EdgeCubicle::C0, EdgeOrientation::O1);
        let corners = {
            [
                (CornerCubicle::C0, CornerOrientation::O0),
                (CornerCubicle::C1, CornerOrientation::O0),
                (CornerCubicle::C2, CornerOrientation::O0),
                (CornerCubicle::C3, CornerOrientation::O0),
                (CornerCubicle::C4, CornerOrientation::O0),
                (CornerCubicle::C5, CornerOrientation::O0),
                (CornerCubicle::C6, CornerOrientation::O0),
                (CornerCubicle::C7, CornerOrientation::O0),
            ]
        };
        state_of(corners, edges)
    };
    assert!(!one_edge_flipped.is_possible_state());

    let two_corners_swapped = {
        state_of(
            [
                (CornerCubicle::C1, CornerOrientation::O0),
                (CornerCubicle::C0, CornerOrientation::O0),
                (CornerCubicle::C2, CornerOrientation::O0),
                (CornerCubicle::C3, CornerOrientation::O0),
                (CornerCubicle::C4, CornerOrientation::O0),
                (CornerCubicle::C5, CornerOrientation::O0),
                (CornerCubicle::C6, CornerOrientation::O0),
                (CornerCubicle::C7, CornerOrientation::O0),
            ],
            solved_edges(),
        )
    };
    assert!(!two_corners_swapped.is_possible_state());
}

#[test]
fn cubestate_random_possible_states_are_possible() {
    for _ in 0..1000 {
        let state = CubeState::random_possible();
        assert!(state.is_possible_state(), "{state:?}");
    }
}

#[test]
fn cubestate_group_ops() {
    let solved = CubeState::solved();
    let rm = rmove();
    let tp = tperm();
    assert_eq!(solved, solved.inverse());
    assert_eq!(solved.mul(&solved), solved);
    assert_eq!(rm.mul(&solved), rm);
    assert_eq!(solved.mul(&tp), tp);

    assert_eq!(tp.inverse(), tp);
    assert_eq!(tp.mul(&tp.inverse()), solved);
    assert_eq!(tp.mul(&tp), solved);

    assert_ne!(rm.inverse(), rm);
    assert_ne!(rm.inverse(), solved);
    assert_ne!(rm.mul(&rm), rm);
    assert_ne!(rm.mul(&rm), solved);
    assert_ne!(rm.mul(&rm).mul(&rm), rm);
    assert_ne!(rm.mul(&rm).mul(&rm), solved);
    assert_eq!(rm.mul(&rm).mul(&rm).mul(&rm), solved);

    assert_eq!(solved, tp.mul(&rm).mul(&rm.inverse()).mul(&tp.inverse()));
}

#[test]
fn cubestate_accessors() {
    let solved = CubeState::solved();
    for c in CornerCubicle::all() {
        assert_eq!(solved.get_corner(c).cubicle(), c);
        assert_eq!(solved.get_corner(c).orientation(), CornerOrientation::O0);
    }
    for c in EdgeCubicle::all() {
        assert_eq!(solved.get_edge(c).cubicle(), c);
        assert_eq!(solved.get_edge(c).orientation(), EdgeOrientation::O0);
    }
}
