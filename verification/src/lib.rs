//! Verified core of the dacho renderer: primitive index generation,
//! vertex input layouts, shader source scanning, draw command lists
//! and the small decisions the Vulkan front end takes.

pub mod primitive;
pub mod text;
pub mod vertex_input;
pub mod shader_input;
pub mod commands;
pub mod order;
pub mod memory;
pub mod image;
pub mod frames;
pub mod debug;
pub mod geometry;
pub mod spirv;
pub mod buffers;
