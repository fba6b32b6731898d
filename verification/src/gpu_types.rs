//! The GPU objects that the library's types carry. Each is an opaque value
//! here: the library only stores, moves and releases them.
use vstd::prelude::*;

verus! {

#[verifier::external_type_specification]
#[verifier::external_body]
pub struct ExDevice(wgpu::Device);

#[verifier::external_type_specification]
#[verifier::external_body]
pub struct ExQueue(wgpu::Queue);

#[verifier::external_type_specification]
#[verifier::external_body]
pub struct ExTexture(wgpu::Texture);

#[verifier::external_type_specification]
#[verifier::external_body]
pub struct ExTextureView(wgpu::TextureView);

#[verifier::external_type_specification]
#[verifier::external_body]
pub struct ExSampler(wgpu::Sampler);

#[verifier::external_type_specification]
#[verifier::external_body]
pub struct ExBuffer(wgpu::Buffer);

#[verifier::external_type_specification]
#[verifier::external_body]
pub struct ExRenderPipeline(wgpu::RenderPipeline);

#[verifier::external_type_specification]
#[verifier::external_body]
pub struct ExPipelineLayout(wgpu::PipelineLayout);

#[verifier::external_type_specification]
#[verifier::external_body]
pub struct ExBindGroupLayout(wgpu::BindGroupLayout);

#[verifier::external_type_specification]
#[verifier::external_body]
pub struct ExBindGroup(wgpu::BindGroup);

#[verifier::external_type_specification]
#[verifier::external_body]
pub struct ExTextureFormat(wgpu::TextureFormat);

/// `wgpu::Texture::destroy` frees the texture's GPU memory at once (instead of
/// when the last handle is dropped). It returns nothing, and nothing is
/// claimed of it.
pub assume_specification[ wgpu::Texture::destroy ](texture: &wgpu::Texture);

/// `wgpu::Buffer::destroy` frees the buffer's GPU memory at once. It returns
/// nothing, and nothing is claimed of it.
pub assume_specification[ wgpu::Buffer::destroy ](buffer: &wgpu::Buffer);

/// The colour format that offscreen rendering targets by default: the variant
/// `wgpu::TextureFormat::Rgba8Unorm` (8-bit RGBA, normalised). The format
/// type is opaque here, so the contract states nothing of the value.
#[verifier::external_body]
pub(crate) fn rgba8_unorm_format() -> wgpu::TextureFormat {
    wgpu::TextureFormat::Rgba8Unorm
}

} // verus!
