//! Pipeline tests that need a GPU device; they return early where no adapter exists.
use std::sync::Arc;

use flutter_vulkan_native::shader_pipeline::{
    view_draw_plan, ShaderPipeline, ViewDrawPlan, SHADER_TOY_FOOTER, SHADER_TOY_HEADER, SHADER_TOY_VERTEX,
};
use flutter_vulkan_native::uniform_queue::UniformValue;

fn try_device() -> Option<(Arc<wgpu::Device>, Arc<wgpu::Queue>)> {
    let instance = wgpu::Instance::new(&wgpu::InstanceDescriptor::default());
    let adapter = pollster::block_on(instance.request_adapter(&wgpu::RequestAdapterOptions::default()))?;
    let (d, q) = pollster::block_on(adapter.request_device(&wgpu::DeviceDescriptor::default(), None)).ok()?;
    Some((Arc::new(d), Arc::new(q)))
}

#[test]
fn shader_toy_preparation() {
    let (d, q) = match try_device() {
        Some(x) => x,
        None => {
            println!("SKIP: no GPU adapter");
            return;
        }
    };
    let mut p = ShaderPipeline::new(&d, &q, 640, 480);
    assert!(p.is_continuous() && !p.pipeline_valid);
    p.set_shaders_text("", "void mainImage(out vec4 c, in vec2 p) { c = vec4(1.0); }");
    p.prepare_shader_toy();
    assert_eq!(p.vertex_source, SHADER_TOY_VERTEX);
    assert!(p.fragment_source.starts_with(SHADER_TOY_HEADER));
    assert!(p.fragment_source.ends_with(SHADER_TOY_FOOTER));
    match p.get_uniforms().get_value("iResolution") {
        Some(UniformValue::Vec3(a)) => assert_eq!(a.map(f32::from_bits), [640.0, 480.0, 0.0]),
        _ => panic!("expected Vec3"),
    }
    assert_eq!(p.get_uniforms().get_sampler2d("iChannel3").unwrap().data.len(), 64);
    let before = p.get_uniforms().len();
    p.add_shader_toy_uniforms();
    assert_eq!(p.get_uniforms().len(), before);
    let r = p.compile_sources();
    assert!(r.is_ok(), "{:?}", r.err());
    p.cleanup();
    assert!(!p.pipeline_valid);
}

#[test]
fn compile_sources_reports_first_failing_stage() {
    let (d, q) = match try_device() {
        Some(x) => x,
        None => {
            println!("SKIP: no GPU adapter");
            return;
        }
    };
    let bad = "#version 450\nlayout(location=0) out vec4 o;\nvoid main() { o = !!!; }\n";
    let good_frag = "#version 450\nlayout(location=0) out vec4 o;\nvoid main() { o = vec4(1.0); }\n";
    let mut p = ShaderPipeline::new(&d, &q, 8, 8);
    assert!(!p.ready_to_draw());
    p.set_shaders_text(SHADER_TOY_VERTEX, bad);
    let e = p.compile_sources().unwrap_err();
    assert!(e.starts_with("FRAGMENT GLSL parse error:\n"), "{e}");
    p.set_shaders_text("#version 450\nvoid main() { int x = ; }\n", bad);
    let e = p.compile_sources().unwrap_err();
    assert!(e.starts_with("VERTEX GLSL parse error:\n"), "{e}");
    p.set_shaders_text(SHADER_TOY_VERTEX, good_frag);
    let (v, f) = p.compile_sources().unwrap();
    assert!(v.contains("@vertex") && f.contains("@fragment"));
    assert!(!p.pipeline_valid && !p.ready_to_draw());
}

#[test]
fn view_draw_plan_cases() {
    assert_eq!(
        view_draw_plan(true, true, true, true),
        ViewDrawPlan { clear_black: true, upload_uniforms: true, draw: true }
    );
    assert_eq!(
        view_draw_plan(true, true, false, true),
        ViewDrawPlan { clear_black: true, upload_uniforms: true, draw: false }
    );
    assert_eq!(
        view_draw_plan(true, true, true, false),
        ViewDrawPlan { clear_black: true, upload_uniforms: false, draw: true }
    );
    assert_eq!(
        view_draw_plan(false, true, true, true),
        ViewDrawPlan { clear_black: false, upload_uniforms: false, draw: false }
    );
    assert_eq!(
        view_draw_plan(true, false, true, true),
        ViewDrawPlan { clear_black: false, upload_uniforms: false, draw: false }
    );
}
