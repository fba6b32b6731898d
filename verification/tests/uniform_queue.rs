use flutter_vulkan_native::sampler2d::Sampler2D;
use flutter_vulkan_native::uniform_queue::{PushConstants, UniformQueue, UniformType, UniformValue};

fn bits(x: f32) -> u32 {
    x.to_bits()
}

#[test]
fn add_and_get() {
    let mut q = UniformQueue::new();
    assert!(q.add_uniform("x", UniformValue::Float(bits(1.5))));
    match q.get_value("x") {
        Some(UniformValue::Float(v)) => assert_eq!(f32::from_bits(*v), 1.5),
        _ => panic!("expected Float"),
    }
}

#[test]
fn add_duplicate_returns_false_and_preserves_original() {
    let mut q = UniformQueue::new();
    assert!(q.add_uniform("x", UniformValue::Int(1)));
    assert!(!q.add_uniform("x", UniformValue::Int(2)));
    match q.get_value("x") {
        Some(UniformValue::Int(v)) => assert_eq!(*v, 1),
        _ => panic!("expected Int(1)"),
    }
}

#[test]
fn set_value() {
    let mut q = UniformQueue::new();
    q.add_uniform("t", UniformValue::Float(bits(0.0)));
    assert!(q.set_uniform_value("t", UniformValue::Float(bits(3.14))));
    match q.get_value("t") {
        Some(UniformValue::Float(v)) => assert!((f32::from_bits(*v) - 3.14_f32).abs() < 1e-6),
        _ => panic!("expected Float"),
    }
}

#[test]
fn remove() {
    let mut q = UniformQueue::new();
    q.add_uniform("v", UniformValue::Vec2([bits(1.0), bits(2.0)]));
    assert!(q.remove_uniform("v"));
    assert!(q.get_value("v").is_none());
}

#[test]
fn push_constants_from_uniforms() {
    let mut q = UniformQueue::new();
    q.add_uniform("iMouse", UniformValue::Vec4([bits(1.0), bits(2.0), bits(3.0), bits(4.0)]));
    q.add_uniform("iResolution", UniformValue::Vec3([bits(800.0), bits(600.0), bits(0.0)]));
    q.add_uniform("iTime", UniformValue::Float(bits(42.0)));

    let pc = q.get_push_constants();
    assert_eq!(pc.i_mouse.map(f32::from_bits), [1.0, 2.0, 3.0, 4.0]);
    assert_eq!(pc.i_resolution.map(f32::from_bits), [800.0, 600.0, 0.0]);
    assert_eq!(f32::from_bits(pc.i_time), 42.0);
}

#[test]
fn push_constants_size_is_32_bytes() {
    // Changing this breaks the GPU UBO layout.
    assert_eq!(std::mem::size_of::<PushConstants>(), 32);
    assert_eq!(PushConstants::default().as_bytes().len(), 32);
}

#[test]
fn push_constants_bytes_are_little_endian_words_in_layout_order() {
    let pc = PushConstants { i_mouse: [1, 0x0102_0304, 3, 4], i_resolution: [5, 6, 7], i_time: 0xAABB_CCDD };
    let b = pc.as_bytes();
    assert_eq!(&b[0..4], &[1, 0, 0, 0]);
    assert_eq!(&b[4..8], &[0x04, 0x03, 0x02, 0x01]);
    assert_eq!(&b[16..20], &[5, 0, 0, 0]);
    assert_eq!(&b[28..32], &[0xDD, 0xCC, 0xBB, 0xAA]);
    // Same bytes as the fields laid out in memory on a little-endian host.
    let mut expected = Vec::new();
    for w in pc.i_mouse.iter().chain(pc.i_resolution.iter()).chain(std::iter::once(&pc.i_time)) {
        expected.extend_from_slice(&w.to_le_bytes());
    }
    assert_eq!(b, expected);
}

#[test]
fn push_constants_default_to_zero_for_missing_or_mistyped() {
    let mut q = UniformQueue::new();
    q.add_uniform("iMouse", UniformValue::Vec3([1, 2, 3]));
    q.add_uniform("iTime", UniformValue::Int(7));
    let pc = q.get_push_constants();
    assert_eq!(pc.i_mouse, [0, 0, 0, 0]);
    assert_eq!(pc.i_resolution, [0, 0, 0]);
    assert_eq!(pc.i_time, 0);
}

#[test]
fn time_write_reaches_push_constants() {
    let mut q = UniformQueue::new();
    q.add_uniform("iMouse", UniformValue::Vec4([9, 8, 7, 6]));
    q.add_uniform("iTime", UniformValue::Float(bits(0.0)));
    assert!(q.set_uniform_value("iTime", UniformValue::Float(bits(99.0))));
    let pc = q.get_push_constants();
    assert_eq!(f32::from_bits(pc.i_time), 99.0);
    assert_eq!(pc.i_mouse, [9, 8, 7, 6]);
}

#[test]
fn set_missing_returns_false_and_adds_nothing() {
    let mut q = UniformQueue::new();
    assert!(!q.set_uniform_value("nope", UniformValue::Bool(true)));
    assert!(q.get_value("nope").is_none());
    assert_eq!(q.len(), 0);
}

#[test]
fn remove_missing_returns_false() {
    let mut q = UniformQueue::new();
    q.add_uniform("a", UniformValue::Bool(true));
    assert!(!q.remove_uniform("b"));
    assert_eq!(q.len(), 1);
}

#[test]
fn remove_undoes_add_and_other_names_untouched() {
    let mut q = UniformQueue::new();
    q.add_uniform("a", UniformValue::Int(1));
    q.add_uniform("b", UniformValue::Int(2));
    assert!(q.remove_uniform("a"));
    assert!(q.get_value("a").is_none());
    assert!(matches!(q.get_value("b"), Some(UniformValue::Int(2))));
    assert!(q.add_uniform("a", UniformValue::Int(3)));
    assert!(matches!(q.get_value("a"), Some(UniformValue::Int(3))));
    // order: b then a
    assert_eq!(q.name_at(0), Some("b"));
    assert_eq!(q.name_at(1), Some("a"));
    assert_eq!(q.name_at(2), None);
}

#[test]
fn set_twice_keeps_second() {
    let mut q = UniformQueue::new();
    q.add_uniform("m", UniformValue::Mat2([0; 4]));
    q.set_uniform_value("m", UniformValue::Mat2([1, 2, 3, 4]));
    q.set_uniform_value("m", UniformValue::Mat2([5, 6, 7, 8]));
    assert!(matches!(q.get_value("m"), Some(UniformValue::Mat2([5, 6, 7, 8]))));
}

#[test]
fn uniform_type_of_each_variant() {
    assert_eq!(UniformValue::Bool(true).uniform_type(), UniformType::Bool);
    assert_eq!(UniformValue::Int(0).uniform_type(), UniformType::Int);
    assert_eq!(UniformValue::Float(0).uniform_type(), UniformType::Float);
    assert_eq!(UniformValue::Vec2([0; 2]).uniform_type(), UniformType::Vec2);
    assert_eq!(UniformValue::Vec3([0; 3]).uniform_type(), UniformType::Vec3);
    assert_eq!(UniformValue::Vec4([0; 4]).uniform_type(), UniformType::Vec4);
    assert_eq!(UniformValue::Mat2([0; 4]).uniform_type(), UniformType::Mat2);
    assert_eq!(UniformValue::Mat3([0; 9]).uniform_type(), UniformType::Mat3);
    assert_eq!(UniformValue::Mat4([0; 16]).uniform_type(), UniformType::Mat4);
    assert_eq!(UniformValue::Sampler2D(Sampler2D::new()).uniform_type(), UniformType::Sampler2D);
}

#[test]
fn get_sampler2d_only_for_samplers() {
    let mut q = UniformQueue::new();
    q.add_uniform("f", UniformValue::Float(0));
    let mut s = Sampler2D::new();
    s.add_rgba32(1, 1, &[1, 2, 3, 4]);
    q.add_uniform("s", UniformValue::Sampler2D(s));
    assert!(q.get_sampler2d("f").is_none());
    assert!(q.get_sampler2d("missing").is_none());
    assert_eq!(q.get_sampler2d("s").unwrap().data, vec![1, 2, 3, 4]);
}

#[test]
fn replace_sampler2d_cases() {
    let mut q = UniformQueue::new();
    q.add_uniform("f", UniformValue::Float(0));
    let mut s = Sampler2D::new();
    s.add_rgba32(1, 1, &[1, 2, 3, 4]);
    q.add_uniform("unslotted", UniformValue::Sampler2D(s));
    let mut t = Sampler2D::new();
    t.add_rgba32(1, 1, &[9, 9, 9, 9]);
    t.n_texture = 2;
    q.add_uniform("slotted", UniformValue::Sampler2D(t));

    assert!(!q.replace_sampler2d("f", 1, 1, &[0, 0, 0, 0]));
    assert!(!q.replace_sampler2d("missing", 1, 1, &[0, 0, 0, 0]));
    // A sampler without a slot is left alone, yet the call succeeds.
    assert!(q.replace_sampler2d("unslotted", 2, 1, &[5, 5, 5, 5, 6, 6, 6, 6]));
    assert_eq!(q.get_sampler2d("unslotted").unwrap().data, vec![1, 2, 3, 4]);
    assert!(q.replace_sampler2d("slotted", 2, 1, &[5, 5, 5, 5, 6, 6, 6, 6, 7]));
    let r = q.get_sampler2d("slotted").unwrap();
    assert_eq!(r.data, vec![5, 5, 5, 5, 6, 6, 6, 6]);
    assert_eq!((r.width, r.height, r.n_texture), (2, 1, 2));
    // Missing pixels (a null pointer from the host) keep the sampler.
    assert!(q.replace_sampler2d("slotted", 4, 4, &[]));
    let r = q.get_sampler2d("slotted").unwrap();
    assert_eq!(r.data, vec![5, 5, 5, 5, 6, 6, 6, 6]);
    assert_eq!((r.width, r.height), (2, 1));
}

fn sampler(data: &[u8], slot: i32) -> UniformValue {
    let mut s = Sampler2D::new();
    if !data.is_empty() {
        s.add_rgba32(1, (data.len() / 4) as u32, data);
    }
    s.n_texture = slot;
    UniformValue::Sampler2D(s)
}

fn slot(q: &UniformQueue, name: &str) -> i32 {
    q.get_sampler2d(name).unwrap().n_texture
}

#[test]
fn numbering_assigns_slots_in_order() {
    let mut q = UniformQueue::new();
    q.add_uniform("a", sampler(&[1, 1, 1, 1], -1));
    q.add_uniform("x", UniformValue::Int(5));
    q.add_uniform("b", sampler(&[2, 2, 2, 2], -1));
    q.add_uniform("empty", sampler(&[], -1));
    q.add_uniform("c", sampler(&[3, 3, 3, 3], -1));
    assert!(q.numbering_fits());
    let uploads = q.number_sampler2d();
    assert_eq!(uploads, vec![0, 2, 4]);
    assert_eq!(slot(&q, "a"), 0);
    assert_eq!(slot(&q, "b"), 1);
    assert_eq!(slot(&q, "empty"), -1);
    assert_eq!(slot(&q, "c"), 2);
}

#[test]
fn numbering_keeps_slots_and_follows_every_held_slot() {
    let mut q = UniformQueue::new();
    q.add_uniform("a", sampler(&[1, 1, 1, 1], 5));
    q.add_uniform("b", sampler(&[2, 2, 2, 2], -1));
    q.add_uniform("uploaded", sampler(&[], 10));
    q.add_uniform("c", sampler(&[3, 3, 3, 3], -1));
    let uploads = q.number_sampler2d();
    assert_eq!(uploads, vec![0, 1, 3]);
    assert_eq!(slot(&q, "a"), 5);
    assert_eq!(slot(&q, "b"), 11);
    assert_eq!(slot(&q, "uploaded"), 10);
    assert_eq!(slot(&q, "c"), 12);
}

#[test]
fn new_slots_never_repeat() {
    let mut q = UniformQueue::new();
    q.add_uniform("A", sampler(&[1, 1, 1, 1], -1));
    q.add_uniform("B", sampler(&[2, 2, 2, 2], -1));
    q.add_uniform("C", sampler(&[], 0));
    q.add_uniform("D", sampler(&[3, 3, 3, 3], -1));
    q.number_sampler2d();
    let slots = [slot(&q, "A"), slot(&q, "B"), slot(&q, "C"), slot(&q, "D")];
    assert_eq!(slots, [1, 2, 0, 3]);
}

#[test]
fn numbering_that_would_overflow_is_reported() {
    let mut q = UniformQueue::new();
    q.add_uniform("top", sampler(&[], i32::MAX));
    assert!(q.numbering_fits());
    q.add_uniform("new", sampler(&[1, 1, 1, 1], -1));
    assert!(!q.numbering_fits());
    let mut ok = UniformQueue::new();
    ok.add_uniform("almost", sampler(&[], i32::MAX - 1));
    ok.add_uniform("new", sampler(&[1, 1, 1, 1], -1));
    assert!(ok.numbering_fits());
    ok.number_sampler2d();
    assert_eq!(slot(&ok, "new"), i32::MAX);
}

#[test]
fn bound_samplers_need_slot_and_view() {
    let mut q = UniformQueue::new();
    q.add_uniform("a", sampler(&[1, 1, 1, 1], 0));
    q.add_uniform("b", sampler(&[], 3));
    // No GPU objects exist without a device: nothing is bound.
    assert!(q.get_all_sampler2d_textures().is_empty());
}

#[test]
fn positions_give_names_and_samplers() {
    let mut q = UniformQueue::new();
    q.add_uniform("t", UniformValue::Float(0));
    let mut s = Sampler2D::new();
    s.add_rgba32(1, 1, &[1, 2, 3, 4]);
    q.add_uniform("c", UniformValue::Sampler2D(s));
    assert_eq!(q.len(), 2);
    assert_eq!(q.name_at(1), Some("c"));
    assert!(q.sampler_at(0).is_none());
    assert_eq!(q.sampler_at(1).unwrap().data, vec![1, 2, 3, 4]);
    assert!(q.sampler_at(2).is_none());
}
