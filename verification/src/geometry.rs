//! Counts and sizes a geometry's buffers are made with.

use vstd::prelude::*;
use crate::vertex_input::{ShaderInfo, Type, size_of_types, types_size};

verus! {

/// A count that does not fit the 32 bits Vulkan draws with.
#[derive(Clone, Copy, Debug, PartialEq, Eq, Structural)]
pub enum CountError {
    TooLarge,
}

/// Number of floats per instance of the default mesh shader.
pub const DEFAULT_INSTANCE_SIZE: usize = 16;

/// A count as the `u32` a draw call takes.
pub fn count_u32(count: usize) -> (r: Result<u32, CountError>)
    ensures
        count <= u32::MAX ==> r == Ok::<u32, CountError>(count as u32),
        count > u32::MAX ==> r == Err::<u32, CountError>(CountError::TooLarge),
{
    if count <= 0xffff_ffffusize {
        Ok(count as u32)
    } else {
        Err(CountError::TooLarge)
    }
}

/// Number of indices drawn from an index buffer of `indices_len` indices.
pub fn index_count(indices_len: usize) -> (r: Result<u32, CountError>)
    ensures
        indices_len <= u32::MAX ==> r == Ok::<u32, CountError>(indices_len as u32),
        indices_len > u32::MAX ==> r == Err::<u32, CountError>(CountError::TooLarge),
{
    count_u32(indices_len)
}

/// Number of whole instances in `instances_len` floats, `instance_size`
/// floats each.
pub fn instance_count(instances_len: usize, instance_size: usize) -> (r: Result<u32, CountError>)
    requires
        instance_size > 0,
    ensures
        instances_len / instance_size <= u32::MAX ==> r == Ok::<u32, CountError>(
            (instances_len / instance_size) as u32,
        ),
        instances_len / instance_size > u32::MAX ==> r == Err::<u32, CountError>(CountError::TooLarge),
{
    count_u32(instances_len / instance_size)
}

/// What a pipeline needs to know of shader `name` with inputs
/// `vertex_info` and `instance_info`: one instance takes as many floats as
/// its inputs' bytes hold.
pub fn shader_info(
    name: String,
    cull_mode: u32,
    polygon_mode: i32,
    vertex_info: Vec<Type>,
    instance_info: Vec<Type>,
) -> (r: ShaderInfo)
    requires
        types_size(instance_info@) <= usize::MAX,
    ensures
        r.name@ == name@,
        r.cull_mode == cull_mode,
        r.polygon_mode == polygon_mode,
        r.vertex_info@ == vertex_info@,
        r.instance_info@ == instance_info@,
        r.instance_size == types_size(instance_info@) / 4,
{
    let instance_size = size_of_types(instance_info.as_slice()) / 4;
    ShaderInfo { name, cull_mode, polygon_mode, vertex_info, instance_info, instance_size }
}

} // verus!
