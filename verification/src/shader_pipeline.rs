//! A shader program's sources, uniforms and GPU objects. The GPU work itself
//! (building the pipeline, drawing, reading back) is done by the host; this
//! type holds what it produces and the rules around it.
use vstd::prelude::*;
use std::sync::Arc;

use crate::float_bits::{encodes_integer, round_to_f32, u32_to_f32_bits};
use crate::glsl::{compile_glsl_to_wgsl, glsl_to_wgsl, ShaderStage};
use crate::gpu_types::rgba8_unorm_format;
use crate::sampler2d::Sampler2D;
use crate::uniform_queue::{
    float_or_zero, has_name, vec3_or_zero, vec4_or_zero, PushConstants, UniformQueue, UniformValue,
};

verus! {

/// Full-screen triangle vertex shader used for ShaderToy fragments.
pub const SHADER_TOY_VERTEX: &'static str = "#version 450\nvoid main() {\n    vec2 uv = vec2((gl_VertexIndex << 1) & 2, gl_VertexIndex & 2);\n    gl_Position = vec4(uv * 2.0 - 1.0, 0.0, 1.0);\n}\n";

/// Declarations put before a ShaderToy fragment: the built-ins' uniform block
/// (binding 8), the four channels as separate texture/sampler pairs
/// (bindings 0-7), and the output.
pub const SHADER_TOY_HEADER: &'static str = "#version 450\nlayout(set=0, binding=8) uniform PushConstants {\n    vec4 iMouse;\n    vec3 iResolution;\n    float iTime;\n} pc;\n#define iMouse pc.iMouse\n#define iResolution pc.iResolution\n#define iTime pc.iTime\nlayout(set=0, binding=0) uniform texture2D _t_iChannel0;\nlayout(set=0, binding=1) uniform sampler _s_iChannel0;\nlayout(set=0, binding=2) uniform texture2D _t_iChannel1;\nlayout(set=0, binding=3) uniform sampler _s_iChannel1;\nlayout(set=0, binding=4) uniform texture2D _t_iChannel2;\nlayout(set=0, binding=5) uniform sampler _s_iChannel2;\nlayout(set=0, binding=6) uniform texture2D _t_iChannel3;\nlayout(set=0, binding=7) uniform sampler _s_iChannel3;\n#define iChannel0 sampler2D(_t_iChannel0, _s_iChannel0)\n#define iChannel1 sampler2D(_t_iChannel1, _s_iChannel1)\n#define iChannel2 sampler2D(_t_iChannel2, _s_iChannel2)\n#define iChannel3 sampler2D(_t_iChannel3, _s_iChannel3)\nlayout(location=0) out vec4 fragColor;\n";

/// The entry point put after a ShaderToy fragment: calls `mainImage` with a
/// bottom-left origin and forces an opaque result.
pub const SHADER_TOY_FOOTER: &'static str = "\nvoid main() {\n    mainImage(fragColor, vec2(gl_FragCoord.x, iResolution.y - gl_FragCoord.y));\n    fragColor.a = 1.0;\n}\n";

/// Texture, view and sampler bound for one iChannel slot.
pub struct SamplerBinding {
    pub texture: wgpu::Texture,
    pub view: wgpu::TextureView,
    pub sampler: wgpu::Sampler,
}

/// A shader program: sources, uniforms, target size, and the GPU objects
/// built for it.
pub struct ShaderPipeline {
    pub device: Arc<wgpu::Device>,
    pub queue: Arc<wgpu::Queue>,
    pub width: u32,
    pub height: u32,
    pub is_continuous: bool,
    /// The GPU pipeline has been built from the current sources.
    pub pipeline_valid: bool,
    /// When the pipeline was built, in nanoseconds since the Unix epoch.
    pub start_time_nanos: u64,
    pub vertex_source: String,
    pub fragment_source: String,
    pub uniform_queue: UniformQueue,
    pub render_pipeline: Option<wgpu::RenderPipeline>,
    pub pipeline_layout: Option<wgpu::PipelineLayout>,
    pub bind_group_layout: Option<wgpu::BindGroupLayout>,
    pub bind_group: Option<wgpu::BindGroup>,
    pub uniform_buffer: Option<wgpu::Buffer>,
    pub target_format: wgpu::TextureFormat,
    pub output_texture: Option<wgpu::Texture>,
    pub output_texture_view: Option<wgpu::TextureView>,
    pub output_buffer: Option<wgpu::Buffer>,
    pub sampler_textures: Vec<SamplerBinding>,
}

/// The uniform `name` is a Sampler2D whose texture, view and sampler all exist.
pub open spec fn channel_ready(m: Map<Seq<char>, UniformValue>, name: Seq<char>) -> bool {
    &&& m.contains_key(name)
    &&& m[name] matches UniformValue::Sampler2D(s) && s.texture is Some && s.texture_view is Some && s.sampler is Some
}

/// 4x4 opaque black RGBA8 pixels: every fourth byte (alpha) is 255.
pub open spec fn black_pixels() -> Seq<u8> {
    Seq::new(64, |i: int| if i % 4 == 3 { 255u8 } else { 0u8 })
}

/// A fresh 4x4 opaque black sampler, not yet given a slot or GPU objects.
pub open spec fn is_black_sampler(s: Sampler2D) -> bool {
    &&& s.width == 4
    &&& s.height == 4
    &&& s.n_texture == -1
    &&& s.data@ == black_pixels()
    &&& s.no_gpu_objects()
}

/// The names `add_shader_toy_uniforms` adds, in order.
pub open spec fn shader_toy_names() -> Seq<Seq<char>> {
    seq!["iMouse"@, "iResolution"@, "iTime"@, "iChannel0"@, "iChannel1"@, "iChannel2"@, "iChannel3"@]
}

/// The values `add_shader_toy_uniforms` adds for a `w` x `h` target, in
/// order: iMouse zero, iResolution (w, h, 0) as floats, iTime zero, and four
/// black samplers.
pub open spec fn shader_toy_defaults(v: Seq<UniformValue>, w: u32, h: u32) -> bool {
    &&& v.len() == 7
    &&& v[0] matches UniformValue::Vec4(a) && a@ == seq![0u32, 0, 0, 0]
    &&& v[1] matches UniformValue::Vec3(a) && encodes_integer(a[0], round_to_f32(w as nat))
        && encodes_integer(a[1], round_to_f32(h as nat)) && a[2] == 0
    &&& v[2] matches UniformValue::Float(t) && t == 0
    &&& forall|i: int| 3 <= i < 7 ==> (#[trigger] v[i] matches UniformValue::Sampler2D(s) && is_black_sampler(s))
}

/// Appends `(k, v)` unless an entry named `k` exists.
pub open spec fn push_absent(e: Seq<(Seq<char>, UniformValue)>, k: Seq<char>, v: UniformValue) -> Seq<(Seq<char>, UniformValue)> {
    if has_name(e, k) {
        e
    } else {
        e.push((k, v))
    }
}

/// `push_absent` of each name with its value, in order.
pub open spec fn push_all_absent(e: Seq<(Seq<char>, UniformValue)>, names: Seq<Seq<char>>, values: Seq<UniformValue>) -> Seq<(Seq<char>, UniformValue)>
    decreases names.len(),
{
    if names.len() == 0 {
        e
    } else {
        push_all_absent(push_absent(e, names[0], values[0]), names.drop_first(), values.drop_first())
    }
}

/// A result of a pair of strings, read as their views.
pub open spec fn pair_view(r: Result<(String, String), String>) -> Result<(Seq<char>, Seq<char>), Seq<char>> {
    match r {
        Ok((v, f)) => Ok((v@, f@)),
        Err(e) => Err(e@),
    }
}

/// Compiling both stages: the vertex stage's error if it fails, else the
/// fragment stage's error if that fails, else both WGSL texts.
pub open spec fn sources_to_wgsl(vertex: Seq<char>, fragment: Seq<char>) -> Result<(Seq<char>, Seq<char>), Seq<char>> {
    match glsl_to_wgsl(vertex, ShaderStage::Vertex) {
        Err(e) => Err(e),
        Ok(v) => match glsl_to_wgsl(fragment, ShaderStage::Fragment) {
            Err(e) => Err(e),
            Ok(f) => Ok((v, f)),
        },
    }
}

proof fn lemma_push_keeps_names(e: Seq<(Seq<char>, UniformValue)>, k: Seq<char>, v: UniformValue, x: Seq<char>)
    requires
        has_name(e, x),
    ensures
        has_name(push_absent(e, k, v), x),
{
    if !has_name(e, k) {
        let i = choose|i: int| 0 <= i < e.len() && #[trigger] e[i].0 == x;
        assert(e.push((k, v))[i].0 == x);
    }
}

proof fn lemma_push_all_keeps_names(
    e: Seq<(Seq<char>, UniformValue)>,
    names: Seq<Seq<char>>,
    values: Seq<UniformValue>,
    x: Seq<char>,
)
    requires
        has_name(e, x),
    ensures
        has_name(push_all_absent(e, names, values), x),
    decreases names.len(),
{
    if names.len() > 0 {
        lemma_push_keeps_names(e, names[0], values[0], x);
        lemma_push_all_keeps_names(push_absent(e, names[0], values[0]), names.drop_first(), values.drop_first(), x);
    }
}

proof fn lemma_push_all_names_present(
    e: Seq<(Seq<char>, UniformValue)>,
    names: Seq<Seq<char>>,
    values: Seq<UniformValue>,
    j: int,
)
    requires
        0 <= j < names.len(),
    ensures
        has_name(push_all_absent(e, names, values), names[j]),
    decreases names.len(),
{
    let e1 = push_absent(e, names[0], values[0]);
    if j == 0 {
        if !has_name(e, names[0]) {
            assert(e1[e.len() as int].0 == names[0]);
        }
        lemma_push_all_keeps_names(e1, names.drop_first(), values.drop_first(), names[0]);
    } else {
        lemma_push_all_names_present(e1, names.drop_first(), values.drop_first(), j - 1);
    }
}

proof fn lemma_push_all_present_is_noop(
    e: Seq<(Seq<char>, UniformValue)>,
    names: Seq<Seq<char>>,
    values: Seq<UniformValue>,
)
    requires
        forall|j: int| 0 <= j < names.len() ==> has_name(e, #[trigger] names[j]),
    ensures
        push_all_absent(e, names, values) == e,
    decreases names.len(),
{
    if names.len() > 0 {
        assert(has_name(e, names[0]));
        assert forall|j: int| 0 <= j < names.drop_first().len() implies has_name(e, #[trigger] names.drop_first()[j]) by {
            assert(names.drop_first()[j] == names[j + 1]);
        }
        lemma_push_all_present_is_noop(e, names.drop_first(), values.drop_first());
    }
}

/// Adding the ShaderToy uniforms a second time changes nothing: after the
/// first time every one of their names exists, whatever values the second
/// call would add.
pub proof fn law_shader_toy_uniforms_idempotent(
    e: Seq<(Seq<char>, UniformValue)>,
    v1: Seq<UniformValue>,
    v2: Seq<UniformValue>,
)
    ensures
        push_all_absent(push_all_absent(e, shader_toy_names(), v1), shader_toy_names(), v2)
            == push_all_absent(e, shader_toy_names(), v1),
{
    let e1 = push_all_absent(e, shader_toy_names(), v1);
    assert forall|j: int| 0 <= j < shader_toy_names().len() implies has_name(e1, #[trigger] shader_toy_names()[j]) by {
        lemma_push_all_names_present(e, shader_toy_names(), v1, j);
    }
    lemma_push_all_present_is_noop(e1, shader_toy_names(), v2);
}

/// A channel is bound to its own texture exactly when its Sampler2D holds a
/// texture, a view and a sampler: the CPU copy of the pixels plays no part
/// (it is dropped once the texture is uploaded).
pub proof fn law_channel_ready_iff_gpu_objects(m: Map<Seq<char>, UniformValue>, name: Seq<char>)
    ensures
        channel_ready(m, name) <==> (m.contains_key(name) && (m[name] matches UniformValue::Sampler2D(s)
            && s.texture is Some && s.texture_view is Some && s.sampler is Some)),
{
}

/// Uploading a sampler's image (any pixels left or none) makes its channel
/// ready: a Sampler2D with a texture, a view and a sampler stored under a name
/// is bound to that texture.
pub proof fn law_uploaded_sampler_is_bound(m: Map<Seq<char>, UniformValue>, name: Seq<char>, s: Sampler2D)
    requires
        s.texture is Some,
        s.texture_view is Some,
        s.sampler is Some,
    ensures
        channel_ready(m.insert(name, UniformValue::Sampler2D(s)), name),
{
}

/// A pipeline can draw exactly when it is valid and holds the render
/// pipeline, the bind group, the uniform buffer, the output texture and its
/// view, and the readback buffer.
pub proof fn law_can_draw_iff_objects_present(p: ShaderPipeline)
    ensures
        p.can_draw() <==> (p.pipeline_valid && p.render_pipeline is Some && p.bind_group is Some
            && p.uniform_buffer is Some && p.output_texture is Some && p.output_texture_view is Some
            && p.output_buffer is Some),
{
}

/// What drawing a frame into a given view does.
#[derive(Debug, Clone, Copy, PartialEq, Eq, Structural)]
pub struct ViewDrawPlan {
    /// Clear to black (a working pipeline); otherwise to magenta.
    pub clear_black: bool,
    /// Write the built-ins into the uniform buffer first.
    pub upload_uniforms: bool,
    /// Draw the full-screen triangle.
    pub draw: bool,
}

/// The plan for drawing into a view: the pipeline counts as working when it
/// is valid and built; the uniforms are written when it works and the
/// uniform buffer exists; the triangle is drawn when it works and the bind
/// group exists.
pub fn view_draw_plan(
    pipeline_valid: bool,
    has_render_pipeline: bool,
    has_bind_group: bool,
    has_uniform_buffer: bool,
) -> (p: ViewDrawPlan)
    ensures
        p.clear_black == (pipeline_valid && has_render_pipeline),
        p.upload_uniforms == (pipeline_valid && has_render_pipeline && has_uniform_buffer),
        p.draw == (pipeline_valid && has_render_pipeline && has_bind_group),
{
    let working = pipeline_valid && has_render_pipeline;
    ViewDrawPlan {
        clear_black: working,
        upload_uniforms: working && has_uniform_buffer,
        draw: working && has_bind_group,
    }
}

impl ShaderPipeline {
    /// No GPU object is held and the pipeline is not valid.
    pub open spec fn released(&self) -> bool {
        &&& !self.pipeline_valid
        &&& self.render_pipeline is None
        &&& self.pipeline_layout is None
        &&& self.bind_group_layout is None
        &&& self.bind_group is None
        &&& self.uniform_buffer is None
        &&& self.output_texture is None
        &&& self.output_texture_view is None
        &&& self.output_buffer is None
        &&& self.sampler_textures@.len() == 0
    }

    /// The CPU-side state is that of `other`.
    pub open spec fn same_settings(&self, other: &ShaderPipeline) -> bool {
        &&& self.device == other.device
        &&& self.queue == other.queue
        &&& self.width == other.width
        &&& self.height == other.height
        &&& self.is_continuous == other.is_continuous
        &&& self.start_time_nanos == other.start_time_nanos
        &&& self.vertex_source == other.vertex_source
        &&& self.fragment_source == other.fragment_source
        &&& self.uniform_queue == other.uniform_queue
        &&& self.target_format == other.target_format
    }

    /// A pipeline of the given size with no sources, no uniforms and no GPU
    /// objects; it renders continuously and targets RGBA8.
    pub fn new(device: &Arc<wgpu::Device>, queue: &Arc<wgpu::Queue>, width: u32, height: u32) -> (p: Self)
        ensures
            p.device == *device,
            p.queue == *queue,
            p.width == width,
            p.height == height,
            p.is_continuous,
            p.start_time_nanos == 0,
            p.vertex_source@ == Seq::<char>::empty(),
            p.fragment_source@ == Seq::<char>::empty(),
            p.uniform_queue.entries() == Seq::<(Seq<char>, UniformValue)>::empty(),
            p.released(),
    {
        ShaderPipeline {
            device: device.clone(),
            queue: queue.clone(),
            width,
            height,
            is_continuous: true,
            pipeline_valid: false,
            start_time_nanos: 0,
            vertex_source: String::new(),
            fragment_source: String::new(),
            uniform_queue: UniformQueue::new(),
            render_pipeline: None,
            pipeline_layout: None,
            bind_group_layout: None,
            bind_group: None,
            uniform_buffer: None,
            target_format: rgba8_unorm_format(),
            output_texture: None,
            output_texture_view: None,
            output_buffer: None,
            sampler_textures: Vec::new(),
        }
    }

    /// Set the vertex and fragment sources.
    pub fn set_shaders_text(&mut self, vertex: &str, fragment: &str)
        ensures
            final(self).vertex_source@ == vertex@,
            final(self).fragment_source@ == fragment@,
            *final(self) == (ShaderPipeline {
                vertex_source: final(self).vertex_source,
                fragment_source: final(self).fragment_source,
                ..*old(self)
            }),
    {
        self.vertex_source = vertex.to_owned();
        self.fragment_source = fragment.to_owned();
    }

    /// Set the target size.
    pub fn set_shaders_size(&mut self, w: u32, h: u32)
        ensures
            *final(self) == (ShaderPipeline { width: w, height: h, ..*old(self) }),
    {
        self.width = w;
        self.height = h;
    }

    /// Set whether frames are drawn continuously.
    pub fn set_is_continuous(&mut self, b: bool)
        ensures
            *final(self) == (ShaderPipeline { is_continuous: b, ..*old(self) }),
    {
        self.is_continuous = b;
    }

    /// Set the colour format the pipeline renders to (before building it).
    pub fn set_target_format(&mut self, format: wgpu::TextureFormat)
        ensures
            *final(self) == (ShaderPipeline { target_format: format, ..*old(self) }),
    {
        self.target_format = format;
    }

    /// The uniforms.
    pub fn get_uniforms(&self) -> (q: &UniformQueue)
        ensures
            *q == self.uniform_queue,
    {
        &self.uniform_queue
    }

    /// The uniforms, to change them.
    pub fn get_uniforms_mut(&mut self) -> (q: &mut UniformQueue)
        ensures
            *q == old(self).uniform_queue,
            *final(self) == (ShaderPipeline { uniform_queue: *final(q), ..*old(self) }),
    {
        &mut self.uniform_queue
    }

    pub fn get_width(&self) -> (w: u32)
        ensures
            w == self.width,
    {
        self.width
    }

    pub fn get_height(&self) -> (h: u32)
        ensures
            h == self.height,
    {
        self.height
    }

    pub fn is_continuous(&self) -> (b: bool)
        ensures
            b == self.is_continuous,
    {
        self.is_continuous
    }

    /// Add the standard ShaderToy uniforms, each unless one of its name
    /// exists: iMouse (zero), iResolution (width, height, 0), iTime (zero)
    /// and iChannel0-3 (4x4 opaque black images).
    pub fn add_shader_toy_uniforms(&mut self)
        ensures
            exists|v: Seq<UniformValue>|
                shader_toy_defaults(v, old(self).width, old(self).height)
                && final(self).uniform_queue.entries() == push_all_absent(
                    old(self).uniform_queue.entries(), shader_toy_names(), v),
            *final(self) == (ShaderPipeline { uniform_queue: final(self).uniform_queue, ..*old(self) }),
    {
        let ghost e0 = self.uniform_queue.entries();
        let v0 = UniformValue::Vec4([0, 0, 0, 0]);
        let ghost g0 = v0;
        self.uniform_queue.add_uniform("iMouse", v0);
        let v1 = UniformValue::Vec3([u32_to_f32_bits(self.width), u32_to_f32_bits(self.height), 0]);
        let ghost g1 = v1;
        self.uniform_queue.add_uniform("iResolution", v1);
        let v2 = UniformValue::Float(0);
        let ghost g2 = v2;
        self.uniform_queue.add_uniform("iTime", v2);

        let mut black: Vec<u8> = Vec::new();
        let mut i: usize = 0;
        while i < 64
            invariant
                i <= 64,
                black@ == black_pixels().subrange(0, i as int),
            decreases 64 - i,
        {
            if i % 4 == 3 {
                black.push(255);
            } else {
                black.push(0);
            }
            assert(black@ =~= black_pixels().subrange(0, i + 1));
            i = i + 1;
        }
        assert(black@ =~= black_pixels());

        let mut s3 = Sampler2D::new();
        s3.add_rgba32(4, 4, black.as_slice());
        let ghost g3 = UniformValue::Sampler2D(s3);
        self.uniform_queue.add_uniform("iChannel0", UniformValue::Sampler2D(s3));
        let mut s4 = Sampler2D::new();
        s4.add_rgba32(4, 4, black.as_slice());
        let ghost g4 = UniformValue::Sampler2D(s4);
        self.uniform_queue.add_uniform("iChannel1", UniformValue::Sampler2D(s4));
        let mut s5 = Sampler2D::new();
        s5.add_rgba32(4, 4, black.as_slice());
        let ghost g5 = UniformValue::Sampler2D(s5);
        self.uniform_queue.add_uniform("iChannel2", UniformValue::Sampler2D(s5));
        let mut s6 = Sampler2D::new();
        s6.add_rgba32(4, 4, black.as_slice());
        let ghost g6 = UniformValue::Sampler2D(s6);
        self.uniform_queue.add_uniform("iChannel3", UniformValue::Sampler2D(s6));
        proof {
            let v = seq![g0, g1, g2, g3, g4, g5, g6];
            assert(black_pixels().subrange(0, 64) =~= black_pixels());
            assert(shader_toy_defaults(v, old(self).width, old(self).height));
            reveal_with_fuel(push_all_absent, 8);
        }
    }

    /// Wrap the ShaderToy fragment in its boilerplate: the vertex source
    /// becomes the full-screen triangle, the fragment source is put between
    /// `SHADER_TOY_HEADER` and `SHADER_TOY_FOOTER`, and the ShaderToy
    /// uniforms are added.
    pub fn prepare_shader_toy(&mut self)
        ensures
            final(self).vertex_source@ == SHADER_TOY_VERTEX@,
            final(self).fragment_source@ == SHADER_TOY_HEADER@ + old(self).fragment_source@ + SHADER_TOY_FOOTER@,
            exists|v: Seq<UniformValue>|
                shader_toy_defaults(v, old(self).width, old(self).height)
                && final(self).uniform_queue.entries() == push_all_absent(
                    old(self).uniform_queue.entries(), shader_toy_names(), v),
            *final(self) == (ShaderPipeline {
                vertex_source: final(self).vertex_source,
                fragment_source: final(self).fragment_source,
                uniform_queue: final(self).uniform_queue,
                ..*old(self)
            }),
    {
        self.vertex_source = SHADER_TOY_VERTEX.to_owned();
        let mut fragment = SHADER_TOY_HEADER.to_owned();
        fragment.append(self.fragment_source.as_str());
        fragment.append(SHADER_TOY_FOOTER);
        self.fragment_source = fragment;
        self.add_shader_toy_uniforms();
    }

    /// Release every GPU object (freeing the output texture's and readback
    /// buffer's memory at once) and mark the pipeline not valid.
    pub fn cleanup(&mut self)
        ensures
            final(self).released(),
            final(self).same_settings(old(self)),
    {
        self.pipeline_valid = false;
        self.bind_group = None;
        self.render_pipeline = None;
        self.pipeline_layout = None;
        self.bind_group_layout = None;
        self.uniform_buffer = None;
        if let Some(tex) = self.output_texture.take() {
            tex.destroy();
        }
        self.output_texture_view = None;
        if let Some(buf) = self.output_buffer.take() {
            buf.destroy();
        }
        self.sampler_textures.clear();
    }

    /// First step of building the pipeline: release the old GPU objects,
    /// then compile the vertex and the fragment source to WGSL, stopping
    /// at the first failure. Returns both WGSL texts, or the error message.
    pub fn compile_sources(&mut self) -> (r: Result<(String, String), String>)
        ensures
            final(self).released(),
            final(self).same_settings(old(self)),
            pair_view(r) == sources_to_wgsl(old(self).vertex_source@, old(self).fragment_source@),
    {
        self.cleanup();
        let vert = match compile_glsl_to_wgsl(self.vertex_source.as_str(), ShaderStage::Vertex) {
            Ok(w) => w,
            Err(e) => return Err(e),
        };
        let frag = match compile_glsl_to_wgsl(self.fragment_source.as_str(), ShaderStage::Fragment) {
            Ok(w) => w,
            Err(e) => return Err(e),
        };
        Ok((vert, frag))
    }

    /// Every GPU object that drawing a frame uses exists and the pipeline is
    /// valid.
    pub open spec fn can_draw(&self) -> bool {
        &&& self.pipeline_valid
        &&& self.render_pipeline is Some
        &&& self.bind_group is Some
        &&& self.uniform_buffer is Some
        &&& self.output_texture is Some
        &&& self.output_texture_view is Some
        &&& self.output_buffer is Some
    }

    /// Whether a frame can be drawn now; when not, drawing is skipped.
    pub fn ready_to_draw(&self) -> (b: bool)
        ensures
            b == self.can_draw(),
    {
        self.pipeline_valid && self.render_pipeline.is_some() && self.bind_group.is_some()
            && self.uniform_buffer.is_some() && self.output_texture.is_some()
            && self.output_texture_view.is_some() && self.output_buffer.is_some()
    }

    /// Last step of building the pipeline: keep the GPU objects built from
    /// the current sources, note the start time, and mark the pipeline valid.
    pub fn install_pipeline(
        &mut self,
        render_pipeline: wgpu::RenderPipeline,
        pipeline_layout: wgpu::PipelineLayout,
        bind_group_layout: wgpu::BindGroupLayout,
        bind_group: wgpu::BindGroup,
        uniform_buffer: wgpu::Buffer,
        output_texture: wgpu::Texture,
        output_texture_view: wgpu::TextureView,
        output_buffer: Option<wgpu::Buffer>,
        sampler_textures: Vec<SamplerBinding>,
        start_time_nanos: u64,
    )
        ensures
            final(self).pipeline_valid,
            final(self).render_pipeline == Some(render_pipeline),
            final(self).pipeline_layout == Some(pipeline_layout),
            final(self).bind_group_layout == Some(bind_group_layout),
            final(self).bind_group == Some(bind_group),
            final(self).uniform_buffer == Some(uniform_buffer),
            final(self).output_texture == Some(output_texture),
            final(self).output_texture_view == Some(output_texture_view),
            final(self).output_buffer == output_buffer,
            final(self).sampler_textures == sampler_textures,
            final(self).start_time_nanos == start_time_nanos,
            final(self).device == old(self).device,
            final(self).queue == old(self).queue,
            final(self).width == old(self).width,
            final(self).height == old(self).height,
            final(self).is_continuous == old(self).is_continuous,
            final(self).vertex_source == old(self).vertex_source,
            final(self).fragment_source == old(self).fragment_source,
            final(self).uniform_queue == old(self).uniform_queue,
            final(self).target_format == old(self).target_format,
    {
        self.render_pipeline = Some(render_pipeline);
        self.pipeline_layout = Some(pipeline_layout);
        self.bind_group_layout = Some(bind_group_layout);
        self.bind_group = Some(bind_group);
        self.uniform_buffer = Some(uniform_buffer);
        self.output_texture = Some(output_texture);
        self.output_texture_view = Some(output_texture_view);
        self.output_buffer = output_buffer;
        self.sampler_textures = sampler_textures;
        self.start_time_nanos = start_time_nanos;
        self.pipeline_valid = true;
    }

    /// The ShaderToy built-ins from the current uniforms.
    pub fn build_push_constants(&self) -> (pc: PushConstants)
        ensures
            pc.i_mouse@ == vec4_or_zero(self.uniform_queue@, "iMouse"@),
            pc.i_resolution@ == vec3_or_zero(self.uniform_queue@, "iResolution"@),
            pc.i_time == float_or_zero(self.uniform_queue@, "iTime"@),
    {
        self.uniform_queue.get_push_constants()
    }

    /// The texture to bind for the channel uniform `name`: that of the
    /// Sampler2D under `name` once its texture, view and sampler all exist;
    /// otherwise none (the channel then gets a 1x1 black fallback).
    pub fn channel_texture(&self, name: &str) -> (t: Option<&wgpu::Texture>)
        ensures
            t is Some <==> channel_ready(self.uniform_queue@, name@),
            t matches Some(x) ==> (self.uniform_queue@[name@] matches UniformValue::Sampler2D(s) && s.texture == Some(*x)),
    {
        match self.uniform_queue.get_sampler2d(name) {
            Some(s) => {
                if s.texture_view.is_some() && s.sampler.is_some() {
                    s.texture.as_ref()
                } else {
                    None
                }
            },
            None => None,
        }
    }
}

} // verus!
