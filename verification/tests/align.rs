use shader_compose::align::align_up;

#[test]
fn align_up_exact_values() {
    assert_eq!(align_up(0, 256), 0);
    assert_eq!(align_up(1, 256), 256);
    assert_eq!(align_up(10, 4), 12);
    assert_eq!(align_up(12, 4), 12);
    assert_eq!(align_up(130, 128), 256);
    assert_eq!(align_up(256, 256), 256);
    assert_eq!(align_up(512, 256), 512);
}

#[test]
fn align_up_row_pitch() {
    // A 128-pixel row of 4-byte texels against a 256-byte row alignment.
    let unpadded = 4u32 * 128;
    assert_eq!(align_up(unpadded, 256), 512);
    assert_eq!(align_up(unpadded, 256) % 256, 0);
}
