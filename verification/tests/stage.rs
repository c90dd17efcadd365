use lib::{GeometryShaderExecutionMode, GraphicsShaderType, PrimitiveTopology};

const MODES: [GeometryShaderExecutionMode; 5] = [
    GeometryShaderExecutionMode::Points,
    GeometryShaderExecutionMode::Lines,
    GeometryShaderExecutionMode::LinesWithAdjacency,
    GeometryShaderExecutionMode::Triangles,
    GeometryShaderExecutionMode::TrianglesWithAdjacency,
];

fn topologies() -> Vec<PrimitiveTopology> {
    vec![
        PrimitiveTopology::PointList,
        PrimitiveTopology::LineList,
        PrimitiveTopology::LineStrip,
        PrimitiveTopology::TriangleList,
        PrimitiveTopology::TriangleStrip,
        PrimitiveTopology::TriangleFan,
        PrimitiveTopology::LineListWithAdjacency,
        PrimitiveTopology::LineStripWithAdjacency,
        PrimitiveTopology::TriangleListWithAdjacency,
        PrimitiveTopology::TriangleStripWithAdjacency,
        PrimitiveTopology::PatchList { vertices_per_patch: 3 },
    ]
}

#[test]
fn points_accept_only_point_list() {
    let m = GeometryShaderExecutionMode::Points;
    for t in topologies() {
        assert_eq!(m.matches(t), t == PrimitiveTopology::PointList);
    }
}

#[test]
fn lines_accept_lists_and_strips() {
    let m = GeometryShaderExecutionMode::Lines;
    assert!(m.matches(PrimitiveTopology::LineList));
    assert!(m.matches(PrimitiveTopology::LineStrip));
    assert!(!m.matches(PrimitiveTopology::LineListWithAdjacency));
    assert!(!m.matches(PrimitiveTopology::PointList));
    assert!(!m.matches(PrimitiveTopology::TriangleList));
}

#[test]
fn lines_with_adjacency_accept_adjacent_lines() {
    let m = GeometryShaderExecutionMode::LinesWithAdjacency;
    assert!(m.matches(PrimitiveTopology::LineListWithAdjacency));
    assert!(m.matches(PrimitiveTopology::LineStripWithAdjacency));
    assert!(!m.matches(PrimitiveTopology::LineList));
    assert!(!m.matches(PrimitiveTopology::TriangleListWithAdjacency));
}

#[test]
fn triangles_accept_lists_strips_and_fans() {
    let m = GeometryShaderExecutionMode::Triangles;
    assert!(m.matches(PrimitiveTopology::TriangleList));
    assert!(m.matches(PrimitiveTopology::TriangleStrip));
    assert!(m.matches(PrimitiveTopology::TriangleFan));
    assert!(!m.matches(PrimitiveTopology::TriangleListWithAdjacency));
    assert!(!m.matches(PrimitiveTopology::LineStrip));
}

#[test]
fn triangles_with_adjacency_accept_adjacent_triangles() {
    let m = GeometryShaderExecutionMode::TrianglesWithAdjacency;
    assert!(m.matches(PrimitiveTopology::TriangleListWithAdjacency));
    assert!(m.matches(PrimitiveTopology::TriangleStripWithAdjacency));
    assert!(!m.matches(PrimitiveTopology::TriangleFan));
}

#[test]
fn each_topology_is_accepted_by_at_most_one_mode() {
    for t in topologies() {
        let n = MODES.iter().filter(|m| m.matches(t)).count();
        match t {
            PrimitiveTopology::PatchList { .. } => assert_eq!(n, 0),
            _ => assert_eq!(n, 1),
        }
    }
}

#[test]
fn every_mode_accepts_some_topology() {
    for m in MODES.iter() {
        assert!(topologies().into_iter().any(|t| m.matches(t)));
    }
}

#[test]
fn patch_lists_are_never_accepted() {
    for m in MODES.iter() {
        assert!(!m.matches(PrimitiveTopology::PatchList { vertices_per_patch: 1 }));
        assert!(!m.matches(PrimitiveTopology::PatchList { vertices_per_patch: 32 }));
    }
}

#[test]
fn shader_types_compare_by_variant_and_mode() {
    assert_eq!(
        GraphicsShaderType::Geometry(GeometryShaderExecutionMode::Lines),
        GraphicsShaderType::Geometry(GeometryShaderExecutionMode::Lines)
    );
    assert_ne!(
        GraphicsShaderType::Geometry(GeometryShaderExecutionMode::Lines),
        GraphicsShaderType::Geometry(GeometryShaderExecutionMode::Points)
    );
    assert_ne!(GraphicsShaderType::Vertex, GraphicsShaderType::Fragment);
}
