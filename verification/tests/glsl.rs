use flutter_vulkan_native::glsl::{compile_glsl_to_wgsl, compile_result, ShaderStage, CompileOutcome};
use flutter_vulkan_native::shader_pipeline::{SHADER_TOY_FOOTER, SHADER_TOY_HEADER, SHADER_TOY_VERTEX};

const VERT: &str = "#version 450\nvoid main() {\n    vec2 uv = vec2(float((gl_VertexIndex << 1) & 2),\n                   float( gl_VertexIndex        & 2));\n    gl_Position = vec4(uv * 2.0 - 1.0, 0.0, 1.0);\n}\n";

const FRAG: &str = "#version 450\nlayout(location=0) out vec4 fragColor;\nvoid main() { fragColor = vec4(1.0, 0.0, 0.0, 1.0); }\n";

#[test]
fn compile_vertex() {
    let r = compile_glsl_to_wgsl(VERT, ShaderStage::Vertex);
    assert!(r.is_ok(), "{:?}", r.err());
}

#[test]
fn compile_fragment() {
    let r = compile_glsl_to_wgsl(FRAG, ShaderStage::Fragment);
    assert!(r.is_ok(), "{:?}", r.err());
}

#[test]
fn compile_error_names_the_stage() {
    let bad = "#version 450\nlayout(location=0) out vec4 o;\nvoid main() { o = !!!; }\n";
    let r = compile_glsl_to_wgsl(bad, ShaderStage::Fragment);
    assert!(r.is_err());
    assert!(r.unwrap_err().contains("FRAGMENT"));
}

#[test]
fn parse_error_message_layout() {
    let bad = "#version 450\nvoid main() { int x = ; }\n";
    let e = compile_glsl_to_wgsl(bad, ShaderStage::Vertex).unwrap_err();
    assert!(e.starts_with("VERTEX GLSL parse error:\n"), "{e}");
    assert!(e.len() > "VERTEX GLSL parse error:\n".len());
}

#[test]
fn compiled_wgsl_has_an_entry_point() {
    let w = compile_glsl_to_wgsl(FRAG, ShaderStage::Fragment).unwrap();
    assert!(w.contains("@fragment"), "{w}");
}

#[test]
fn compile_result_messages() {
    let r = compile_result(
        ShaderStage::Compute,
        CompileOutcome::ParseFailed(vec!["first".to_string(), "second".to_string()]),
    );
    assert_eq!(r, Err("COMPUTE GLSL parse error:\nfirst\nsecond".to_string()));
    let r = compile_result(ShaderStage::Vertex, CompileOutcome::ParseFailed(vec!["only".to_string()]));
    assert_eq!(r, Err("VERTEX GLSL parse error:\nonly".to_string()));
    let r = compile_result(ShaderStage::Vertex, CompileOutcome::ValidationFailed("bad type".to_string()));
    assert_eq!(r, Err("naga validation error: bad type".to_string()));
    let r = compile_result(ShaderStage::Fragment, CompileOutcome::WriteFailed("oops".to_string()));
    assert_eq!(r, Err("WGSL write error: oops".to_string()));
    let r = compile_result(ShaderStage::Vertex, CompileOutcome::SizesUnbounded);
    assert_eq!(
        r,
        Err("VERTEX GLSL not accepted: brackets must hold decimal literals, and struct is not supported".to_string())
    );
    let r = compile_result(ShaderStage::Fragment, CompileOutcome::Compiled("fn main() {}".to_string()));
    assert_eq!(r, Ok("fn main() {}".to_string()));
}

#[test]
fn shader_toy_sources_compile() {
    let user = "void mainImage(out vec4 c, in vec2 p) { c = texture(iChannel0, p / iResolution.xy) + vec4(iTime) + iMouse; }\n";
    let frag = format!("{SHADER_TOY_HEADER}{user}{SHADER_TOY_FOOTER}");
    let r = compile_glsl_to_wgsl(&frag, ShaderStage::Fragment);
    assert!(r.is_ok(), "{:?}", r.err());
    let r = compile_glsl_to_wgsl(SHADER_TOY_VERTEX, ShaderStage::Vertex);
    assert!(r.is_ok(), "{:?}", r.err());
}
