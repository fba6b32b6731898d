use flutter_vulkan_native::sampler2d::Sampler2D;

#[test]
fn new_sampler_is_empty_and_unslotted() {
    let s = Sampler2D::new();
    assert!(s.data.is_empty());
    assert_eq!((s.width, s.height, s.n_texture), (0, 0, -1));
    assert!(s.texture.is_none() && s.texture_view.is_none() && s.sampler.is_none());
    let d = Sampler2D::default();
    assert_eq!(d.n_texture, -1);
}

#[test]
fn add_rgba32_keeps_exactly_w_h_4_bytes() {
    let mut s = Sampler2D::new();
    let raw: Vec<u8> = (0..20).collect();
    s.add_rgba32(2, 2, &raw);
    assert_eq!(s.data, (0..16).collect::<Vec<u8>>());
    assert_eq!((s.width, s.height), (2, 2));
    s.add_rgba32(1, 1, &raw[4..]);
    assert_eq!(s.data, vec![4, 5, 6, 7]);
}

#[test]
fn replace_texture_needs_a_slot() {
    let mut s = Sampler2D::new();
    s.add_rgba32(1, 1, &[1, 2, 3, 4]);
    s.replace_texture(1, 1, &[9, 9, 9, 9]);
    assert_eq!(s.data, vec![1, 2, 3, 4]);
    s.n_texture = 0;
    s.replace_texture(1, 2, &[9, 9, 9, 9, 8, 8, 8, 8]);
    assert_eq!(s.data, vec![9, 9, 9, 9, 8, 8, 8, 8]);
    assert_eq!((s.width, s.height, s.n_texture), (1, 2, 0));
}

#[test]
fn destroy_keeps_pixels() {
    let mut s = Sampler2D::new();
    s.add_rgba32(1, 1, &[1, 2, 3, 4]);
    s.destroy();
    assert_eq!(s.data, vec![1, 2, 3, 4]);
    assert!(s.texture.is_none());
}

#[test]
fn replace_texture_without_pixels_keeps_the_sampler() {
    let mut s = Sampler2D::new();
    s.add_rgba32(1, 1, &[1, 2, 3, 4]);
    s.n_texture = 3;
    s.replace_texture(4, 4, &[]);
    assert_eq!(s.data, vec![1, 2, 3, 4]);
    assert_eq!((s.width, s.height, s.n_texture), (1, 1, 3));
    s.replace_texture(2, 1, &[5, 5, 5, 5]);
    assert_eq!(s.data, vec![1, 2, 3, 4]);
}
