use flutter_vulkan_native::uniform_codec::{decode_uniform, uniform_byte_len, uniform_type_code};
use flutter_vulkan_native::sampler2d::Sampler2D;
use flutter_vulkan_native::uniform_queue::{UniformQueue, UniformType, UniformValue};

fn f32_bytes(xs: &[f32]) -> Vec<u8> {
    xs.iter().flat_map(|x| x.to_le_bytes()).collect()
}

#[test]
fn type_codes() {
    let all = [
        (UniformType::Bool, Some(0)),
        (UniformType::Int, Some(1)),
        (UniformType::Float, Some(2)),
        (UniformType::Vec2, Some(3)),
        (UniformType::Vec3, Some(4)),
        (UniformType::Vec4, Some(5)),
        (UniformType::Mat2, Some(6)),
        (UniformType::Mat3, Some(7)),
        (UniformType::Mat4, Some(8)),
        (UniformType::Sampler2D, None),
    ];
    for (t, c) in all {
        assert_eq!(uniform_type_code(t), c);
    }
}

#[test]
fn byte_lengths() {
    let lens = [1, 4, 4, 8, 12, 16, 16, 36, 64];
    for (code, n) in lens.iter().enumerate() {
        assert_eq!(uniform_byte_len(code as i32), Some(*n));
    }
    assert_eq!(uniform_byte_len(9), None);
    assert_eq!(uniform_byte_len(-1), None);
}

#[test]
fn decode_scalars() {
    assert!(matches!(decode_uniform(0, &[0]), Some(UniformValue::Bool(false))));
    assert!(matches!(decode_uniform(0, &[7]), Some(UniformValue::Bool(true))));
    assert!(decode_uniform(0, &[]).is_none());
    assert!(matches!(decode_uniform(1, &(-5i32).to_le_bytes()), Some(UniformValue::Int(-5))));
    assert!(matches!(decode_uniform(1, &i32::MIN.to_le_bytes()), Some(UniformValue::Int(i32::MIN))));
    assert!(matches!(decode_uniform(1, &i32::MAX.to_le_bytes()), Some(UniformValue::Int(i32::MAX))));
    match decode_uniform(2, &f32_bytes(&[2.5])) {
        Some(UniformValue::Float(b)) => assert_eq!(f32::from_bits(b), 2.5),
        _ => panic!("expected Float"),
    }
    assert!(decode_uniform(2, &[1, 2, 3]).is_none());
}

#[test]
fn decode_vectors_and_matrices() {
    match decode_uniform(4, &f32_bytes(&[1.0, 2.0, 3.0])) {
        Some(UniformValue::Vec3(a)) => assert_eq!(a.map(f32::from_bits), [1.0, 2.0, 3.0]),
        _ => panic!("expected Vec3"),
    }
    match decode_uniform(6, &f32_bytes(&[1.0, 2.0, 3.0, 4.0])) {
        Some(UniformValue::Mat2(a)) => assert_eq!(a.map(f32::from_bits), [1.0, 2.0, 3.0, 4.0]),
        _ => panic!("expected Mat2"),
    }
    let m4: Vec<f32> = (0..16).map(|i| i as f32).collect();
    match decode_uniform(8, &f32_bytes(&m4)) {
        Some(UniformValue::Mat4(a)) => assert_eq!(a.map(f32::from_bits).to_vec(), m4),
        _ => panic!("expected Mat4"),
    }
    // extra bytes are ignored, too few refuse
    assert!(matches!(decode_uniform(3, &f32_bytes(&[1.0, 2.0, 3.0])), Some(UniformValue::Vec2(_))));
    assert!(decode_uniform(7, &f32_bytes(&[1.0; 8])).is_none());
    assert!(decode_uniform(42, &[0; 64]).is_none());
}

#[test]
fn decoded_type_matches_code() {
    let bytes = [0u8; 64];
    for code in 0..9 {
        let v = decode_uniform(code, &bytes).expect("enough bytes");
        assert_eq!(uniform_type_code(v.uniform_type()), Some(code));
    }
}

#[test]
fn add_and_set_from_bytes() {
    let mut q = UniformQueue::new();
    assert!(q.add_uniform_from_bytes("v", 4, &f32_bytes(&[1.0, 2.0, 3.0])));
    assert!(!q.add_uniform_from_bytes("v", 2, &f32_bytes(&[1.0])));
    assert!(!q.add_uniform_from_bytes("w", 4, &f32_bytes(&[1.0])));
    assert!(!q.add_uniform_from_bytes("w", 99, &[0; 64]));
    assert!(q.get_value("w").is_none());
    assert_eq!(q.stored_type_code("v"), Some(4));
    assert_eq!(q.stored_type_code("missing"), None);

    // set decodes as the stored type, whatever the bytes "look like"
    assert!(q.set_uniform_from_bytes("v", &f32_bytes(&[4.0, 5.0, 6.0, 7.0])));
    match q.get_value("v") {
        Some(UniformValue::Vec3(a)) => assert_eq!(a.map(f32::from_bits), [4.0, 5.0, 6.0]),
        _ => panic!("expected Vec3"),
    }
    assert!(!q.set_uniform_from_bytes("v", &f32_bytes(&[1.0])));
    assert!(!q.set_uniform_from_bytes("missing", &[0; 64]));

    let mut s = Sampler2D::new();
    s.add_rgba32(1, 1, &[0, 0, 0, 255]);
    q.add_uniform("tex", UniformValue::Sampler2D(s));
    assert_eq!(q.stored_type_code("tex"), None);
    assert!(!q.set_uniform_from_bytes("tex", &[0; 64]));
}
