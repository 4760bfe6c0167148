use cpu_renderer::depth::DEPTH_FAR;
use cpu_renderer::framebuffer::{fill_row, Framebuffer};

#[test]
fn new_framebuffer_is_black_and_far() {
    let fb = Framebuffer::new(4, 3);
    assert_eq!(fb.get_width(), 4);
    assert_eq!(fb.get_height(), 3);
    assert_eq!(fb.get_buffer().len(), 12);
    assert!(fb.get_buffer().iter().all(|&c| c == 0));
    for y in 0..3 {
        for x in 0..4 {
            assert_eq!(fb.get_pixel_z(x, y), DEPTH_FAR);
        }
    }
}

#[test]
fn set_pixel_writes_row_major() {
    let mut fb = Framebuffer::new(4, 3);
    fb.set_pixel(1, 2, 0xABCDEF);
    assert_eq!(fb.get_buffer()[2 * 4 + 1], 0xABCDEF);
    assert_eq!(fb.get_buffer().iter().filter(|&&c| c != 0).count(), 1);
}

#[test]
fn set_pixel_past_row_end_wraps_to_next_row() {
    let mut fb = Framebuffer::new(4, 3);
    fb.set_pixel(5, 0, 7);
    assert_eq!(fb.get_buffer()[5], 7);
}

#[test]
fn set_and_get_depth() {
    let mut fb = Framebuffer::new(2, 2);
    fb.set_pixel_z(1, 1, 0.25f32.to_bits());
    assert_eq!(f32::from_bits(fb.get_pixel_z(1, 1)), 0.25);
    assert_eq!(fb.get_pixel_z(0, 1), DEPTH_FAR);
}

#[test]
fn depth_test_accepts_closer_fragment() {
    let mut fb = Framebuffer::new(3, 3);
    assert!(fb.test_z_set_pixel(1, 1, 0.5f32.to_bits(), 0x00FF00));
    assert_eq!(fb.get_buffer()[4], 0x00FF00);
    assert_eq!(f32::from_bits(fb.get_pixel_z(1, 1)), 0.5);
}

#[test]
fn depth_test_rejects_farther_or_equal_fragment() {
    let mut fb = Framebuffer::new(3, 3);
    assert!(fb.test_z_set_pixel(1, 1, 0.5f32.to_bits(), 1));
    assert!(!fb.test_z_set_pixel(1, 1, 0.5f32.to_bits(), 2));
    assert!(!fb.test_z_set_pixel(1, 1, 0.75f32.to_bits(), 3));
    assert_eq!(fb.get_buffer()[4], 1);
    assert!(fb.test_z_set_pixel(1, 1, 0.25f32.to_bits(), 4));
    assert_eq!(fb.get_buffer()[4], 4);
}

#[test]
fn depth_test_rejects_out_of_bounds() {
    let mut fb = Framebuffer::new(3, 2);
    assert!(!fb.test_z_set_pixel(3, 0, 0.0f32.to_bits(), 9));
    assert!(!fb.test_z_set_pixel(0, 2, 0.0f32.to_bits(), 9));
    assert!(fb.get_buffer().iter().all(|&c| c == 0));
}

#[test]
fn depth_test_rejects_nan_and_far_plane() {
    let mut fb = Framebuffer::new(2, 2);
    assert!(!fb.test_z_set_pixel(0, 0, f32::NAN.to_bits(), 5));
    assert!(!fb.test_z_set_pixel(0, 0, 1.0f32.to_bits(), 5));
    assert!(fb.test_z_set_pixel(0, 0, (-3.0f32).to_bits(), 5));
}

#[test]
fn clear_paints_clear_color_and_keeps_depth() {
    let mut fb = Framebuffer::new(5, 4);
    fb.set_pixel_z(0, 0, 0.125f32.to_bits());
    fb.set_clear_color(0x0019_1919);
    fb.clear();
    assert!(fb.get_buffer().iter().all(|&c| c == 0x0019_1919));
    assert_eq!(f32::from_bits(fb.get_pixel_z(0, 0)), 0.125);
}

#[test]
fn clear_depth_resets_far_and_keeps_colors() {
    let mut fb = Framebuffer::new(5, 4);
    assert!(fb.test_z_set_pixel(2, 3, 0.0f32.to_bits(), 77));
    fb.clear_depth();
    for y in 0..4 {
        for x in 0..5 {
            assert_eq!(fb.get_pixel_z(x, y), DEPTH_FAR);
        }
    }
    assert_eq!(fb.get_buffer()[3 * 5 + 2], 77);
}

#[test]
fn fill_row_fills_every_element() {
    let mut row = vec![1u32, 2, 3, 4];
    fill_row(&mut row, 9);
    assert_eq!(row, vec![9, 9, 9, 9]);
    let mut empty: Vec<u32> = Vec::new();
    fill_row(&mut empty, 9);
    assert!(empty.is_empty());
}

#[test]
fn cleared_depth_accepts_any_closer_fragment() {
    let mut fb = Framebuffer::new(3, 3);
    assert!(fb.test_z_set_pixel(0, 0, 0.1f32.to_bits(), 1));
    fb.clear_depth();
    for z in [0.99f32, 0.0, -5.0, f32::NEG_INFINITY] {
        for y in 0..3 {
            for x in 0..3 {
                let mut copy = Framebuffer::new(3, 3);
                copy.clear_depth();
                assert!(copy.test_z_set_pixel(x, y, z.to_bits(), 2));
            }
        }
        assert!(fb.test_z_set_pixel(1, 2, 0.999f32.to_bits(), 3));
        fb.clear_depth();
    }
}
