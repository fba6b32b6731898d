use flutter_vulkan_native::float_bits::u32_to_f32_bits;

#[test]
fn matches_the_cast_on_many_values() {
    let mut samples: Vec<u32> = vec![
        0, 1, 2, 3, 7, 255, 256, 800, 600, 1920, 1080, 0x00FF_FFFF, 0x0100_0000, 0x0100_0001, 0x0100_0002,
        0x0100_0003, 0x0200_0001, 0x0200_0002, 0x0200_0003, 0x0200_0006, 0x7FFF_FFFF, 0x8000_0000,
        0xFFFF_FF7F, 0xFFFF_FF80, 0xFFFF_FF81, u32::MAX,
    ];
    let mut x: u32 = 12345;
    for _ in 0..5000 {
        x = x.wrapping_mul(1_103_515_245).wrapping_add(12_345);
        samples.push(x);
        samples.push(x >> (x % 31));
    }
    for v in samples {
        assert_eq!(u32_to_f32_bits(v), (v as f32).to_bits(), "value {v}");
    }
}

#[test]
fn exact_below_two_to_the_24() {
    for v in [0u32, 1, 1000, 16_777_215] {
        assert_eq!(f32::from_bits(u32_to_f32_bits(v)) as u32, v);
    }
    // 2^24 + 1 rounds to even (down), 2^24 + 3 rounds up
    assert_eq!(f32::from_bits(u32_to_f32_bits(16_777_217)) as u32, 16_777_216);
    assert_eq!(f32::from_bits(u32_to_f32_bits(16_777_219)) as u32, 16_777_220);
}
