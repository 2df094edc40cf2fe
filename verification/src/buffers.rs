//! Sizes of the buffers geometry is uploaded through.

use vstd::prelude::*;
use crate::geometry::CountError;

verus! {

/// Byte size of one vertex buffer element, a 32-bit float.
pub const FLOAT_SIZE: u64 = 4;

/// Byte size of one index, a `u32`.
pub const INDEX_SIZE: u64 = 4;

/// A device-local buffer of vertex or instance data.
pub struct VertexBuffer;

/// A device-local buffer of indices.
pub struct IndexBuffer;

/// A host-visible buffer data is copied through on its way to the device.
pub struct StagingBuffer;

impl VertexBuffer {
    /// Byte size of a buffer holding `float_count` floats.
    pub fn buffer_size(float_count: usize) -> (r: u64)
        requires
            float_count * FLOAT_SIZE <= u64::MAX,
        ensures
            r == float_count * FLOAT_SIZE,
    {
        (float_count as u64) * FLOAT_SIZE
    }
}

impl IndexBuffer {
    /// Byte size of a buffer holding `index_count` indices.
    pub fn buffer_size(index_count: usize) -> (r: u64)
        requires
            index_count * INDEX_SIZE <= u64::MAX,
        ensures
            r == index_count * INDEX_SIZE,
    {
        (index_count as u64) * INDEX_SIZE
    }
}

impl StagingBuffer {
    /// Number of bytes to copy into a staging buffer of `buffer_size`
    /// bytes, when the host can address that many.
    pub fn byte_count(buffer_size: u64) -> (r: Result<usize, CountError>)
        ensures
            buffer_size <= usize::MAX ==> r == Ok::<usize, CountError>(buffer_size as usize),
            buffer_size > usize::MAX ==> r == Err::<usize, CountError>(CountError::TooLarge),
    {
        if buffer_size <= usize::MAX as u64 {
            Ok(buffer_size as usize)
        } else {
            Err(CountError::TooLarge)
        }
    }
}

} // verus!
