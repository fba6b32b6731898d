use flutter_vulkan_native::glsl::{compile_glsl_to_wgsl, ShaderStage};
use flutter_vulkan_native::layout_bound::sizes_are_bounded;

#[test]
fn plain_shaders_are_admitted() {
    assert!(sizes_are_bounded("#version 450\nlayout(location=0) out vec4 o;\nvoid main() { o = vec4(1.0); }\n"));
    assert!(sizes_are_bounded("const float PI = 3.14159;\nvec3 p[4];\nfloat f(int i) { return p[i].x + p[2].y; }\n"));
    assert!(sizes_are_bounded("float a[1024][1024][4];"));
}

#[test]
fn huge_or_unbounded_arrays_are_refused() {
    assert!(!sizes_are_bounded("float a[1073741824][2];"));
    assert!(!sizes_are_bounded("float a[1024][1024][1024];"));
    assert!(!sizes_are_bounded("float a[1024][1024][5];"));
    assert!(!sizes_are_bounded("const int N = 1 << 30;\nfloat a[N][2];"));
    assert!(!sizes_are_bounded("#define N 1073741824\nfloat a[N][2];"));
    assert!(!sizes_are_bounded("#define D [9999999]\nfloat a D D;"));
    assert!(!sizes_are_bounded("#define C const\nC int n = 4;"));
    assert!(!sizes_are_bounded("float a[__LINE__][__LINE__];"));
    assert!(!sizes_are_bounded("float a[true ? 9 : 1];"));
    assert!(!sizes_are_bounded("float a[v.x];"));
    assert!(!sizes_are_bounded("float a[];"));
    assert!(!sizes_are_bounded("float a[2 * 3];"));
}

#[test]
fn structs_pasting_and_splicing_are_refused() {
    assert!(!sizes_are_bounded("struct S { float x; };"));
    assert!(!sizes_are_bounded("#define P(a, b) a##b\n"));
    assert!(!sizes_are_bounded("co\\\nnst int n = 1;"));
    assert!(!sizes_are_bounded(&"x".repeat(65537)));
    assert!(sizes_are_bounded(&"x".repeat(65536)));
}

#[test]
fn oversized_type_is_refused_without_calling_naga() {
    let src = "#version 450\nlayout(location=0) out vec4 o;\nfloat a[1073741824][2];\nvoid main() { o = vec4(1.0); }\n";
    let e = compile_glsl_to_wgsl(src, ShaderStage::Fragment).unwrap_err();
    assert_eq!(e, "FRAGMENT GLSL not accepted: brackets must hold decimal literals, and struct is not supported");
}

#[test]
fn arrays_indexed_by_variables_compile() {
    let src = "#version 450\nlayout(location=0) out vec4 o;\nvoid main() {\n    vec4 c[3];\n    c[0] = vec4(1.0); c[1] = vec4(0.5); c[2] = vec4(0.0);\n    vec4 s = vec4(0.0);\n    for (int i = 0; i < 3; i++) { s += c[i]; }\n    o = s;\n}\n";
    let r = compile_glsl_to_wgsl(src, ShaderStage::Fragment);
    assert!(r.is_ok(), "{:?}", r.err());
}
