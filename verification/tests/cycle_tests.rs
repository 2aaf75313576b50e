use cubestruct::cubie::{
    CornerCubicle, CornerCubie, CornerOrientation, CubicleArray, EdgeCubicle, EdgeCubie,
    EdgeOrientation,
};
use cubestruct::iter_2cycles::{corner_2cycles, edge_2cycles};

#[test]
fn corner_cycle_decomposition() {
    assert_eq!(
        corner_2cycles(&CubicleArray::new([
            CornerCubie::new(CornerCubicle::C2, CornerOrientation::O0),
            CornerCubie::new(CornerCubicle::C5, CornerOrientation::O0),
            CornerCubie::new(CornerCubicle::C6, CornerOrientation::O0),
            CornerCubie::new(CornerCubicle::C0, CornerOrientation::O0),
            CornerCubie::new(CornerCubicle::C7, CornerOrientation::O0),
            CornerCubie::new(CornerCubicle::C4, CornerOrientation::O0),
            CornerCubie::new(CornerCubicle::C3, CornerOrientation::O0),
            CornerCubie::new(CornerCubicle::C1, CornerOrientation::O0),
        ])),
        vec![
            (CornerCubicle::C2, CornerCubicle::C0),
            (CornerCubicle::C6, CornerCubicle::C0),
            (CornerCubicle::C3, CornerCubicle::C0),
            (CornerCubicle::C5, CornerCubicle::C1),
            (CornerCubicle::C4, CornerCubicle::C1),
            (CornerCubicle::C7, CornerCubicle::C1)
        ]
    );
    assert_eq!(
        corner_2cycles(&CubicleArray::new([
            CornerCubie::new(CornerCubicle::C0, CornerOrientation::O0),
            CornerCubie::new(CornerCubicle::C1, CornerOrientation::O0),
            CornerCubie::new(CornerCubicle::C2, CornerOrientation::O0),
            CornerCubie::new(CornerCubicle::C3, CornerOrientation::O0),
            CornerCubie::new(CornerCubicle::C4, CornerOrientation::O0),
            CornerCubie::new(CornerCubicle::C5, CornerOrientation::O0),
            CornerCubie::new(CornerCubicle::C6, CornerOrientation::O0),
            CornerCubie::new(CornerCubicle::C7, CornerOrientation::O0),
        ])),
        vec![]
    );
}

#[test]
fn edge_cycle_decomposition() {
    assert_eq!(
        edge_2cycles(&CubicleArray::new([
            EdgeCubie::new(EdgeCubicle::C8, EdgeOrientation::O0),
            EdgeCubie::new(EdgeCubicle::C6, EdgeOrientation::O0),
            EdgeCubie::new(EdgeCubicle::C1, EdgeOrientation::O0),
            EdgeCubie::new(EdgeCubicle::C7, EdgeOrientation::O0),
            EdgeCubie::new(EdgeCubicle::C0, EdgeOrientation::O0),
            EdgeCubie::new(EdgeCubicle::C10, EdgeOrientation::O0),
            EdgeCubie::new(EdgeCubicle::C5, EdgeOrientation::O0),
            EdgeCubie::new(EdgeCubicle::C4, EdgeOrientation::O0),
            EdgeCubie::new(EdgeCubicle::C11, EdgeOrientation::O0),
            EdgeCubie::new(EdgeCubicle::C2, EdgeOrientation::O0),
            EdgeCubie::new(EdgeCubicle::C9, EdgeOrientation::O0),
            EdgeCubie::new(EdgeCubicle::C3, EdgeOrientation::O0),
        ])),
        vec![
            (EdgeCubicle::C8, EdgeCubicle::C0),
            (EdgeCubicle::C11, EdgeCubicle::C0),
            (EdgeCubicle::C3, EdgeCubicle::C0),
            (EdgeCubicle::C7, EdgeCubicle::C0),
            (EdgeCubicle::C4, EdgeCubicle::C0),
            (EdgeCubicle::C6, EdgeCubicle::C1),
            (EdgeCubicle::C5, EdgeCubicle::C1),
            (EdgeCubicle::C10, EdgeCubicle::C1),
            (EdgeCubicle::C9, EdgeCubicle::C1),
            (EdgeCubicle::C2, EdgeCubicle::C1)
        ]
    );
    assert_eq!(
        edge_2cycles(&CubicleArray::new([
            EdgeCubie::new(EdgeCubicle::C0, EdgeOrientation::O0),
            EdgeCubie::new(EdgeCubicle::C1, EdgeOrientation::O0),
            EdgeCubie::new(EdgeCubicle::C2, EdgeOrientation::O0),
            EdgeCubie::new(EdgeCubicle::C3, EdgeOrientation::O0),
            EdgeCubie::new(EdgeCubicle::C4, EdgeOrientation::O0),
            EdgeCubie::new(EdgeCubicle::C5, EdgeOrientation::O0),
            EdgeCubie::new(EdgeCubicle::C6, EdgeOrientation::O0),
            EdgeCubie::new(EdgeCubicle::C7, EdgeOrientation::O0),
            EdgeCubie::new(EdgeCubicle::C8, EdgeOrientation::O0),
            EdgeCubie::new(EdgeCubicle::C9, EdgeOrientation::O0),
            EdgeCubie::new(EdgeCubicle::C10, EdgeOrientation::O0),
            EdgeCubie::new(EdgeCubicle::C11, EdgeOrientation::O0),
        ])),
        vec![]
    );
}
