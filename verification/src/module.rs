use vstd::prelude::*;

use std::marker::PhantomData;
use std::sync::Arc;

use crate::interface::{EmptyShaderInterfaceDef, ShaderInterfaceDef};
use crate::specialization::SpecializationConstants;
use crate::stage::GraphicsShaderType;

verus! {

/// Not enough memory was available to create an object.
#[derive(Debug, Copy, Clone, PartialEq, Eq, Structural)]
pub enum OomError {
    /// There is no memory available on the host (ie. the CPU, RAM, etc.).
    OutOfHostMemory,
    /// There is no memory available on the device (ie. video memory).
    OutOfDeviceMemory,
}

/// Contains SPIR-V code with one or more entry points.
///
/// The module is known by its Vulkan handle and by the handle of the device that it was
/// created on.
#[derive(Debug)]
pub struct ShaderModule {
    module: u64,
    #[allow(dead_code)]
    device: usize,
}

impl ShaderModule {
    /// The Vulkan handle of the module.
    pub closed spec fn handle(&self) -> u64 {
        self.module
    }

    /// The handle of the device that the module was created on.
    pub closed spec fn device_handle(&self) -> usize {
        self.device
    }

    /// Builds a new shader module from SPIR-V, given what the device answered when asked to
    /// create it from `spirv`: the handle of the new module, or the memory error.
    ///
    /// The SPIR-V code is neither validated nor checked for the features it requires.
    pub fn new(device: usize, spirv: &[u8], created: Result<u64, OomError>) -> (r: Result<
        Arc<ShaderModule>,
        OomError,
    >)
        requires
            spirv@.len() % 4 == 0,
        ensures
            match created {
                Ok(handle) => r matches Ok(m) && m.handle() == handle && m.device_handle()
                    == device,
                Err(e) => r == Err::<Arc<ShaderModule>, OomError>(e),
            },
    {
        match created {
            Ok(module) => Ok(Arc::new(ShaderModule { module, device })),
            Err(e) => Err(e),
        }
    }

    /// The Vulkan handle of the module.
    pub fn internal_object(&self) -> (r: u64)
        ensures
            r == self.handle(),
    {
        self.module
    }

    /// Gets access to an entry point contained in this module.
    ///
    /// This is purely a *logical* operation. It returns a struct that *represents* the entry
    /// point but doesn't actually do anything. The caller must check that the entry point
    /// exists in the module, and that the input, output and layout describe those used by
    /// this stage.
    pub fn graphics_entry_point<'a, S, I, O, L>(
        &'a self,
        name: &'a str,
        input: I,
        output: O,
        layout: L,
        ty: GraphicsShaderType,
    ) -> (r: GraphicsEntryPoint<'a, S, I, O, L>)
        ensures
            *r.module_spec() == *self,
            r.name_spec()@ == name@,
            r.input_spec() == input,
            r.output_spec() == output,
            r.layout_spec() == layout,
            r.ty_spec() == ty,
    {
        GraphicsEntryPoint {
            module: self,
            name: name,
            input: input,
            output: output,
            layout: layout,
            ty: ty,
            marker: PhantomData,
        }
    }

    /// Gets access to an entry point contained in this module.
    ///
    /// This is purely a *logical* operation. It returns a struct that *represents* the entry
    /// point but doesn't actually do anything. The caller must check that the entry point
    /// exists in the module, and that the layout describes the one used by this stage.
    pub fn compute_entry_point<'a, S, L>(&'a self, name: &'a str, layout: L) -> (r:
        ComputeEntryPoint<'a, S, L>)
        ensures
            *r.module_spec() == *self,
            r.name_spec()@ == name@,
            r.layout_spec() == layout,
    {
        ComputeEntryPoint { module: self, name: name, layout: layout, marker: PhantomData }
    }
}

/// A shader entry point: the module that holds it, its name and its pipeline layout.
///
/// Implementations must describe an entry point that exists in the module, with the layout
/// that it uses.
pub trait EntryPointAbstract {
    type PipelineLayout;

    type SpecializationConstants: SpecializationConstants;

    /// Returns the module this entry point comes from.
    fn module(&self) -> &ShaderModule;

    /// Returns the name of the entry point.
    fn name(&self) -> &str;

    /// Returns the pipeline layout used by the shader stage.
    fn layout(&self) -> &Self::PipelineLayout;
}

/// An entry point of a graphics shader stage, with the interfaces of the stage.
pub trait GraphicsEntryPointAbstract: EntryPointAbstract {
    type InputDefinition: ShaderInterfaceDef;

    type OutputDefinition: ShaderInterfaceDef;

    /// Returns the input attributes used by the shader stage.
    fn input(&self) -> &Self::InputDefinition;

    /// Returns the output attributes used by the shader stage.
    fn output(&self) -> &Self::OutputDefinition;

    /// Returns the type of shader.
    fn ty(&self) -> GraphicsShaderType;
}

/// Represents a shader entry point in a shader module.
///
/// Can be obtained by calling `graphics_entry_point()` on the shader module.
#[derive(Debug, Copy)]
pub struct GraphicsEntryPoint<'a, S, I, O, L> {
    module: &'a ShaderModule,
    name: &'a str,
    input: I,
    layout: L,
    output: O,
    ty: GraphicsShaderType,
    marker: PhantomData<S>,
}

impl<'a, S, I, O, L> GraphicsEntryPoint<'a, S, I, O, L> {
    /// The module that holds the entry point.
    pub closed spec fn module_spec(&self) -> &'a ShaderModule {
        self.module
    }

    /// The name of the entry point.
    pub closed spec fn name_spec(&self) -> &'a str {
        self.name
    }

    /// The input interface of the stage.
    pub closed spec fn input_spec(&self) -> I {
        self.input
    }

    /// The output interface of the stage.
    pub closed spec fn output_spec(&self) -> O {
        self.output
    }

    /// The pipeline layout of the stage.
    pub closed spec fn layout_spec(&self) -> L {
        self.layout
    }

    /// The kind of the stage.
    pub closed spec fn ty_spec(&self) -> GraphicsShaderType {
        self.ty
    }
}

impl<'a, S, I: Clone, O: Clone, L: Clone> Clone for GraphicsEntryPoint<'a, S, I, O, L> {
    fn clone(&self) -> (r: Self)
        ensures
            r.module_spec() == self.module_spec(),
            r.name_spec() == self.name_spec(),
            cloned::<I>(self.input_spec(), r.input_spec()),
            cloned::<O>(self.output_spec(), r.output_spec()),
            cloned::<L>(self.layout_spec(), r.layout_spec()),
            r.ty_spec() == self.ty_spec(),
    {
        GraphicsEntryPoint {
            module: self.module,
            name: self.name,
            input: self.input.clone(),
            layout: self.layout.clone(),
            output: self.output.clone(),
            ty: self.ty,
            marker: PhantomData,
        }
    }
}

impl<'a, S, I, O, L> EntryPointAbstract for GraphicsEntryPoint<'a, S, I, O, L> where
    I: ShaderInterfaceDef,
    O: ShaderInterfaceDef,
    S: SpecializationConstants,
 {
    type PipelineLayout = L;

    type SpecializationConstants = S;

    fn module(&self) -> (r: &ShaderModule)
        ensures
            *r == *self.module_spec(),
    {
        self.module
    }

    fn name(&self) -> (r: &str)
        ensures
            r@ == self.name_spec()@,
    {
        self.name
    }

    fn layout(&self) -> (r: &L)
        ensures
            *r == self.layout_spec(),
    {
        &self.layout
    }
}

impl<'a, S, I, O, L> GraphicsEntryPointAbstract for GraphicsEntryPoint<'a, S, I, O, L> where
    I: ShaderInterfaceDef,
    O: ShaderInterfaceDef,
    S: SpecializationConstants,
 {
    type InputDefinition = I;

    type OutputDefinition = O;

    fn input(&self) -> (r: &I)
        ensures
            *r == self.input_spec(),
    {
        &self.input
    }

    fn output(&self) -> (r: &O)
        ensures
            *r == self.output_spec(),
    {
        &self.output
    }

    fn ty(&self) -> (r: GraphicsShaderType)
        ensures
            r == self.ty_spec(),
    {
        self.ty
    }
}

/// Represents the entry point of a compute shader in a shader module.
///
/// Can be obtained by calling `compute_entry_point()` on the shader module.
#[derive(Debug, Copy)]
pub struct ComputeEntryPoint<'a, S, L> {
    module: &'a ShaderModule,
    name: &'a str,
    layout: L,
    marker: PhantomData<S>,
}

impl<'a, S, L> ComputeEntryPoint<'a, S, L> {
    /// The module that holds the entry point.
    pub closed spec fn module_spec(&self) -> &'a ShaderModule {
        self.module
    }

    /// The name of the entry point.
    pub closed spec fn name_spec(&self) -> &'a str {
        self.name
    }

    /// The pipeline layout of the stage.
    pub closed spec fn layout_spec(&self) -> L {
        self.layout
    }
}

impl<'a, S, L: Clone> Clone for ComputeEntryPoint<'a, S, L> {
    fn clone(&self) -> (r: Self)
        ensures
            r.module_spec() == self.module_spec(),
            r.name_spec() == self.name_spec(),
            cloned::<L>(self.layout_spec(), r.layout_spec()),
    {
        ComputeEntryPoint {
            module: self.module,
            name: self.name,
            layout: self.layout.clone(),
            marker: PhantomData,
        }
    }
}

impl<'a, S, L> EntryPointAbstract for ComputeEntryPoint<'a, S, L> where
    S: SpecializationConstants,
 {
    type PipelineLayout = L;

    type SpecializationConstants = S;

    fn module(&self) -> (r: &ShaderModule)
        ensures
            *r == *self.module_spec(),
    {
        self.module
    }

    fn name(&self) -> (r: &str)
        ensures
            r@ == self.name_spec()@,
    {
        self.name
    }

    fn layout(&self) -> (r: &L)
        ensures
            *r == self.layout_spec(),
    {
        &self.layout
    }
}

/// A dummy that implements `GraphicsEntryPointAbstract` and `EntryPointAbstract`.
///
/// When a function has a signature like: `fn foo<S: EntryPointAbstract>(shader: Option<S>)`,
/// you can pass `None::<EmptyEntryPointDummy>`. No value of this type can exist: its
/// invariant holds of none.
#[derive(Debug, Copy, Clone)]
pub struct EmptyEntryPointDummy {
    #[allow(dead_code)]
    never: (),
}

impl EmptyEntryPointDummy {
    /// No value of the type satisfies this.
    #[verifier::type_invariant]
    spec fn exists_not(self) -> bool {
        false
    }
}

impl EntryPointAbstract for EmptyEntryPointDummy {
    type PipelineLayout = ();

    type SpecializationConstants = ();

    fn module(&self) -> &ShaderModule {
        proof {
            use_type_invariant(self);
        }
        loop
            invariant
                false,
            decreases 0nat,
        {
        }
    }

    fn name(&self) -> &str {
        proof {
            use_type_invariant(self);
        }
        loop
            invariant
                false,
            decreases 0nat,
        {
        }
    }

    fn layout(&self) -> &() {
        proof {
            use_type_invariant(self);
        }
        loop
            invariant
                false,
            decreases 0nat,
        {
        }
    }
}

impl GraphicsEntryPointAbstract for EmptyEntryPointDummy {
    type InputDefinition = EmptyShaderInterfaceDef;

    type OutputDefinition = EmptyShaderInterfaceDef;

    fn input(&self) -> &EmptyShaderInterfaceDef {
        proof {
            use_type_invariant(self);
        }
        loop
            invariant
                false,
            decreases 0nat,
        {
        }
    }

    fn output(&self) -> &EmptyShaderInterfaceDef {
        proof {
            use_type_invariant(self);
        }
        loop
            invariant
                false,
            decreases 0nat,
        {
        }
    }

    fn ty(&self) -> GraphicsShaderType {
        proof {
            use_type_invariant(self);
        }
        loop
            invariant
                false,
            decreases 0nat,
        {
        }
    }
}

} // verus!
