use vstd::prelude::*;

use crate::topology::PrimitiveTopology;

verus! {

/// The kind of a graphics shader stage.
#[derive(Debug, Copy, Clone, PartialEq, Eq, Structural)]
pub enum GraphicsShaderType {
    Vertex,
    TessellationControl,
    TessellationEvaluation,
    Geometry(GeometryShaderExecutionMode),
    Fragment,
}

/// Declares which type of primitives are expected by the geometry shader.
#[derive(Debug, Copy, Clone, PartialEq, Eq, Structural)]
pub enum GeometryShaderExecutionMode {
    Points,
    Lines,
    LinesWithAdjacency,
    Triangles,
    TrianglesWithAdjacency,
}

/// The primitive topologies that a geometry shader running in `mode` accepts as input.
pub open spec fn mode_accepts(mode: GeometryShaderExecutionMode, input: PrimitiveTopology) -> bool {
    match mode {
        GeometryShaderExecutionMode::Points => input == PrimitiveTopology::PointList,
        GeometryShaderExecutionMode::Lines => {
            input == PrimitiveTopology::LineList || input == PrimitiveTopology::LineStrip
        },
        GeometryShaderExecutionMode::LinesWithAdjacency => {
            input == PrimitiveTopology::LineListWithAdjacency
                || input == PrimitiveTopology::LineStripWithAdjacency
        },
        GeometryShaderExecutionMode::Triangles => {
            input == PrimitiveTopology::TriangleList || input == PrimitiveTopology::TriangleStrip
                || input == PrimitiveTopology::TriangleFan
        },
        GeometryShaderExecutionMode::TrianglesWithAdjacency => {
            input == PrimitiveTopology::TriangleListWithAdjacency
                || input == PrimitiveTopology::TriangleStripWithAdjacency
        },
    }
}

impl GeometryShaderExecutionMode {
    /// Returns true if the given primitive topology can be used with this execution mode.
    pub fn matches(&self, input: PrimitiveTopology) -> (r: bool)
        ensures
            r == mode_accepts(*self, input),
    {
        match (*self, input) {
            (GeometryShaderExecutionMode::Points, PrimitiveTopology::PointList) => true,
            (GeometryShaderExecutionMode::Lines, PrimitiveTopology::LineList) => true,
            (GeometryShaderExecutionMode::Lines, PrimitiveTopology::LineStrip) => true,
            (
                GeometryShaderExecutionMode::LinesWithAdjacency,
                PrimitiveTopology::LineListWithAdjacency,
            ) => true,
            (
                GeometryShaderExecutionMode::LinesWithAdjacency,
                PrimitiveTopology::LineStripWithAdjacency,
            ) => true,
            (GeometryShaderExecutionMode::Triangles, PrimitiveTopology::TriangleList) => true,
            (GeometryShaderExecutionMode::Triangles, PrimitiveTopology::TriangleStrip) => true,
            (GeometryShaderExecutionMode::Triangles, PrimitiveTopology::TriangleFan) => true,
            (
                GeometryShaderExecutionMode::TrianglesWithAdjacency,
                PrimitiveTopology::TriangleListWithAdjacency,
            ) => true,
            (
                GeometryShaderExecutionMode::TrianglesWithAdjacency,
                PrimitiveTopology::TriangleStripWithAdjacency,
            ) => true,
            _ => false,
        }
    }
}

/// No primitive topology is accepted by two different execution modes: the mode that a
/// geometry shader must run in is determined by its input topology.
pub proof fn lemma_mode_accepting_topology_is_unique(
    m1: GeometryShaderExecutionMode,
    m2: GeometryShaderExecutionMode,
    input: PrimitiveTopology,
)
    requires
        mode_accepts(m1, input),
        mode_accepts(m2, input),
    ensures
        m1 == m2,
{
}

/// Every execution mode accepts at least one primitive topology.
pub proof fn lemma_every_mode_accepts_a_topology(mode: GeometryShaderExecutionMode)
    ensures
        exists|input: PrimitiveTopology| mode_accepts(mode, input),
{
    match mode {
        GeometryShaderExecutionMode::Points => {
            assert(mode_accepts(mode, PrimitiveTopology::PointList));
        },
        GeometryShaderExecutionMode::Lines => {
            assert(mode_accepts(mode, PrimitiveTopology::LineList));
        },
        GeometryShaderExecutionMode::LinesWithAdjacency => {
            assert(mode_accepts(mode, PrimitiveTopology::LineListWithAdjacency));
        },
        GeometryShaderExecutionMode::Triangles => {
            assert(mode_accepts(mode, PrimitiveTopology::TriangleList));
        },
        GeometryShaderExecutionMode::TrianglesWithAdjacency => {
            assert(mode_accepts(mode, PrimitiveTopology::TriangleListWithAdjacency));
        },
    }
}

/// A patch list is never accepted by a geometry shader: patches only feed tessellation.
pub proof fn lemma_patch_list_never_accepted(mode: GeometryShaderExecutionMode, vertices_per_patch: u32)
    ensures
        !mode_accepts(mode, PrimitiveTopology::PatchList { vertices_per_patch }),
{
}

} // verus!
