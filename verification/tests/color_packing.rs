use cpu_renderer::color::pack_rgb;

#[test]
fn pack_rgb_places_channels() {
    assert_eq!(pack_rgb(0x12, 0x34, 0x56), 0x0012_3456);
    assert_eq!(pack_rgb(255, 255, 255), 0x00FF_FFFF);
    assert_eq!(pack_rgb(0, 0, 0), 0);
    assert_eq!(pack_rgb(255, 0, 0), 0x00FF_0000);
    assert_eq!(pack_rgb(0, 255, 0), 0x0000_FF00);
    assert_eq!(pack_rgb(0, 0, 255), 0x0000_00FF);
}

#[test]
fn pack_rgb_channels_recoverable() {
    for r in [0u8, 1, 25, 128, 255] {
        for g in [0u8, 7, 200, 255] {
            for b in [0u8, 9, 99, 255] {
                let p = pack_rgb(r, g, b);
                assert!(p < 0x0100_0000);
                assert_eq!(p / 65536, r as u32);
                assert_eq!((p / 256) % 256, g as u32);
                assert_eq!(p % 256, b as u32);
            }
        }
    }
}
