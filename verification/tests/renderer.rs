use flutter_vulkan_native::renderer::{loop_step, LoopStep, RenderControl, RenderThreadMessage};

#[test]
fn new_control_has_one_empty_message() {
    let c = RenderControl::new();
    assert_eq!(c.msg, vec![RenderThreadMessage::NoMessage]);
    assert!(c.msg_processed);
    assert!(!c.is_looping());
    assert!(c.shader_error.is_empty());
}

#[test]
fn last_request_is_taken_first() {
    let mut c = RenderControl::new();
    c.set_new_texture_msg();
    c.stop();
    assert_eq!(c.take_message(), RenderThreadMessage::StopRenderer);
    assert_eq!(c.take_message(), RenderThreadMessage::NewTexture);
    assert_eq!(c.take_message(), RenderThreadMessage::NoMessage);
    assert_eq!(c.take_message(), RenderThreadMessage::NoMessage);
    assert!(c.msg.is_empty());
}

#[test]
fn shader_request_and_outcome() {
    let mut c = RenderControl::new();
    c.shader_built("old error".to_string());
    c.set_shader_toy("void mainImage(out vec4 c, in vec2 p) {}");
    assert!(c.is_shader_toy && c.new_shader_is_continuous);
    assert!(!c.msg_processed);
    assert!(c.shader_error.is_empty());
    assert_eq!(c.new_shader_vertex_source, "");
    assert_eq!(c.take_message(), RenderThreadMessage::NewShader);
    c.shader_built("VERTEX GLSL parse error:\nx".to_string());
    assert!(c.msg_processed);
    assert_eq!(c.shader_error, "VERTEX GLSL parse error:\nx");
    c.set_shader_mut(false, "v", "f");
    assert!(!c.is_shader_toy && !c.new_shader_is_continuous);
    assert_eq!((c.new_shader_vertex_source.as_str(), c.new_shader_fragment_source.as_str()), ("v", "f"));
}

#[test]
fn loop_steps() {
    assert_eq!(loop_step(RenderThreadMessage::NewShader, false), LoopStep::BuildShader);
    assert_eq!(loop_step(RenderThreadMessage::NewTexture, true), LoopStep::RefreshTextures);
    assert_eq!(loop_step(RenderThreadMessage::StopRenderer, true), LoopStep::Stop);
    assert_eq!(loop_step(RenderThreadMessage::NoMessage, true), LoopStep::Draw);
    assert_eq!(loop_step(RenderThreadMessage::NoMessage, false), LoopStep::Idle);
}

#[test]
fn loop_running_flag() {
    let mut c = RenderControl::new();
    c.set_loop_running(true);
    assert!(c.is_looping());
    c.set_loop_running(false);
    assert!(!c.is_looping());
}
