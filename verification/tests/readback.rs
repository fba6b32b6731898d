use flutter_vulkan_native::readback::{padded_bytes_per_row, strip_row_padding};

#[test]
fn padded_rows_round_up_to_256() {
    assert_eq!(padded_bytes_per_row(0), 0);
    assert_eq!(padded_bytes_per_row(1), 256);
    assert_eq!(padded_bytes_per_row(64), 256);
    assert_eq!(padded_bytes_per_row(65), 512);
    assert_eq!(padded_bytes_per_row(32), 256);
    assert_eq!(padded_bytes_per_row(100), 512);
}

#[test]
fn strip_padding_keeps_each_row() {
    let (w, h) = (3u32, 2u32);
    let padded = padded_bytes_per_row(w) as usize;
    let mut mapped = vec![0xEEu8; padded * h as usize];
    for y in 0..h as usize {
        for i in 0..(w as usize * 4) {
            mapped[y * padded + i] = (y * 100 + i) as u8;
        }
    }
    let px = strip_row_padding(&mapped, w, h);
    assert_eq!(px.len(), (w * h * 4) as usize);
    for y in 0..h as usize {
        for x in 0..w as usize {
            for c in 0..4 {
                assert_eq!(px[(y * w as usize + x) * 4 + c], (y * 100 + x * 4 + c) as u8);
            }
        }
    }
    assert!(!px.contains(&0xEE));
}

#[test]
fn unpadded_rows_are_taken_as_they_are() {
    let mapped: Vec<u8> = (0..=255u8).cycle().take(256 * 2).collect();
    let px = strip_row_padding(&mapped, 64, 2);
    assert_eq!(px, mapped);
}
