use std::sync::Arc;

use lib::{
    ComputeEntryPoint, EmptyEntryPointDummy, EmptyShaderInterfaceDef, EntryPointAbstract,
    GeometryShaderExecutionMode, GraphicsEntryPoint, GraphicsEntryPointAbstract,
    GraphicsShaderType, OomError, ShaderModule, SpecializationConstants,
};

fn module() -> Arc<ShaderModule> {
    ShaderModule::new(7, &[0u8; 8], Ok(0x1234)).unwrap()
}

#[test]
fn new_wraps_the_created_handle() {
    let m = module();
    assert_eq!(m.internal_object(), 0x1234);
    assert_eq!(Arc::strong_count(&m), 1);
}

#[test]
fn new_passes_on_memory_errors() {
    assert_eq!(
        ShaderModule::new(7, &[0u8; 4], Err(OomError::OutOfHostMemory)).err(),
        Some(OomError::OutOfHostMemory)
    );
    assert_eq!(
        ShaderModule::new(7, &[], Err(OomError::OutOfDeviceMemory)).err(),
        Some(OomError::OutOfDeviceMemory)
    );
}

#[test]
fn graphics_entry_point_gives_back_its_parts() {
    let m = module();
    let ty = GraphicsShaderType::Geometry(GeometryShaderExecutionMode::Triangles);
    let e: GraphicsEntryPoint<(), EmptyShaderInterfaceDef, EmptyShaderInterfaceDef, u32> =
        m.graphics_entry_point("main", EmptyShaderInterfaceDef, EmptyShaderInterfaceDef, 42, ty);
    assert_eq!(e.name(), "main");
    assert_eq!(*e.layout(), 42);
    assert_eq!(e.ty(), ty);
    assert_eq!(e.module().internal_object(), 0x1234);
    let _: &EmptyShaderInterfaceDef = e.input();
    let _: &EmptyShaderInterfaceDef = e.output();
    let c = e.clone();
    assert_eq!(c.name(), "main");
    assert_eq!(c.ty(), ty);
}

#[test]
fn compute_entry_point_gives_back_its_parts() {
    let m = module();
    let e: ComputeEntryPoint<(), &str> = m.compute_entry_point("cs_main", "layout");
    assert_eq!(e.name(), "cs_main");
    assert_eq!(*e.layout(), "layout");
    assert_eq!(e.module().internal_object(), 0x1234);
    let c = e.clone();
    assert_eq!(c.name(), "cs_main");
}

#[test]
fn unit_has_no_specialization_constants() {
    assert_eq!(<() as SpecializationConstants>::descriptors().len(), 0);
}

fn entry_point_name<S: EntryPointAbstract>(shader: Option<S>) -> Option<String> {
    shader.map(|s| s.name().to_string())
}

#[test]
fn dummy_stands_for_no_entry_point() {
    assert_eq!(entry_point_name(None::<EmptyEntryPointDummy>), None);
}
