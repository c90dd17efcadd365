# Shader stages

A Verus library for the shader stages of a Vulkan graphics pipeline: shader modules and
their entry points, the interfaces between stages, the primitive topologies a geometry
shader accepts, and the specialization constants of a shader.

- `src/topology.rs`: the ways vertices are assembled into primitives.
- `src/stage.rs`: the kinds of graphics stages, which topologies each geometry shader
  execution mode accepts, and the laws of that relation.
- `src/interface.rs`: interface definitions, matching one interface against another
  (`match_interfaces`, with its exact specification `interface_match`), and the laws of
  matching: when it succeeds, what each error witnesses, that names never matter, and how
  reordering elements affects the outcome.
- `src/specialization.rs`: specialization constants.
- `src/module.rs`: shader modules and the entry points they hold.
- `app/lib.rs`: `Display` and `Error` for a copy of the interface mismatch error.

Creating and destroying a module on a device goes through the Vulkan API, which this crate
does not hold: `ShaderModule::new` takes the device's answer to the creation request.
