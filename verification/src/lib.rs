//! Shader rendering library for a Flutter plugin: named shader uniforms and
//! their GPU byte layout, RGBA sampler images, GLSL to WGSL compilation of
//! ShaderToy-style fragments, readback row layout, and the render thread's
//! message protocol.

pub mod float_bits;
pub mod glsl;
pub mod layout_bound;
pub mod gpu_setup;
pub mod gpu_types;
pub mod readback;
pub mod renderer;
pub mod sampler2d;
pub mod shader_pipeline;
pub mod uniform_codec;
pub mod uniform_queue;
