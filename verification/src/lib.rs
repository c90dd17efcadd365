//! Shader stages of a graphics pipeline: shader modules, their entry points, the interfaces
//! between stages and the specialization constants of a shader.

pub mod interface;
pub mod module;
pub mod specialization;
pub mod stage;
pub mod topology;

pub use interface::{
    EmptyShaderInterfaceDef, Format, ShaderInterfaceDef, ShaderInterfaceDefEntry,
    ShaderInterfaceDefMatch, ShaderInterfaceMismatchError,
};
pub use stage::{GeometryShaderExecutionMode, GraphicsShaderType};
pub use topology::PrimitiveTopology;
pub use specialization::{SpecializationConstants, SpecializationMapEntry};
pub use module::{
    ComputeEntryPoint, EmptyEntryPointDummy, EntryPointAbstract, GraphicsEntryPoint,
    GraphicsEntryPointAbstract, OomError, ShaderModule,
};
