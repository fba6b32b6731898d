use flutter_vulkan_native::gpu_setup::{
    adapter_error_message, adapter_step, backend_choice, device_error_message, surface_format_index, AdapterChoice,
    BackendChoice,
};

#[test]
fn android_asks_for_vulkan_and_gl_only() {
    assert_eq!(backend_choice(true), BackendChoice::VulkanAndGl);
    assert_eq!(backend_choice(false), BackendChoice::All);
}

#[test]
fn high_performance_adapter_is_preferred() {
    assert_eq!(adapter_step(true, true), AdapterChoice::HighPerformance);
    assert_eq!(adapter_step(true, false), AdapterChoice::HighPerformance);
    assert_eq!(adapter_step(false, true), AdapterChoice::LowPower);
    assert_eq!(adapter_step(false, false), AdapterChoice::NoAdapter);
}

#[test]
fn setup_error_messages() {
    assert_eq!(adapter_error_message(), "failed to find a suitable GPU adapter");
    assert_eq!(device_error_message("lost"), "failed to open GPU device: lost");
}

#[test]
fn first_srgb_surface_format_is_chosen() {
    assert_eq!(surface_format_index(&[false, true, true]), Some(1));
    assert_eq!(surface_format_index(&[false, false]), Some(0));
    assert_eq!(surface_format_index(&[]), None);
}
