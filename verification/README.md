# flutter_vulkan_native

GPU-accelerated GLSL fragment shader rendering (including ShaderToy-style
shaders) for a Flutter plugin, built on wgpu and naga.

Layout:

- `src/` — the verified library (Verus). Uniform storage and lookup, the
  32-byte uniform block the GPU reads, sampler images and texture-slot
  numbering, `u32` to single-precision conversion, GLSL to WGSL compilation
  (after a check on the text that keeps every type naga lays out far below
  `u32::MAX` bytes) and its error messages, readback row layout, uniform decoding from raw
  bytes, the render thread's request protocol, and the choices made while
  opening the GPU (backends, adapter fallback, setup error messages). Floating-point payloads
  are stored as IEEE-754 bit patterns.
- `app/` — the host side: wgpu device setup, GPU resource creation and
  drawing, the render thread, and the C and WebAssembly entry points.
- `tests/` — tests of the library.
