use vstd::prelude::*;

verus! {

/// Describes an individual constant to set in the shader. Also a field in the struct.
pub struct SpecializationMapEntry {
    /// Identifier of the constant in the shader that corresponds to this field.
    pub constant_id: u32,
    /// Offset within this struct for the data.
    pub offset: u32,
    /// Size of the data in bytes.
    pub size: usize,
}

/// Each entry of `entries` describes bytes that lie within a value of `size` bytes.
pub open spec fn entries_within(entries: Seq<SpecializationMapEntry>, size: nat) -> bool {
    forall|i: int|
        0 <= i < entries.len() ==> #[trigger] entries[i].offset + entries[i].size <= size
}

/// Trait for types that contain specialization data for shaders.
///
/// It is implemented on `()` for shaders that don't have any specialization constant.
/// The `SpecializationMapEntry` values returned must contain valid offsets and sizes.
pub trait SpecializationConstants: Sized {
    /// Returns descriptors of the struct's layout: each describes bytes within the struct.
    fn descriptors() -> (r: &'static [SpecializationMapEntry])
        ensures
            entries_within(r@, vstd::layout::size_of::<Self>()),
    ;
}

impl SpecializationConstants for () {
    fn descriptors() -> (r: &'static [SpecializationMapEntry])
        ensures
            r@.len() == 0,
    {
        &[]
    }
}

} // verus!
