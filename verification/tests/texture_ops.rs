use cpu_renderer::texture::Texture;

#[test]
fn checkerboard_pattern() {
    let t = Texture::checkerboard(4, 4, 2, 'B', 'M');
    assert_eq!(t.width, 4);
    assert_eq!(t.height, 4);
    let rows: Vec<String> = (0..4)
        .map(|y| t.data[y * 4..y * 4 + 4].iter().collect())
        .collect();
    assert_eq!(rows, vec!["BBMM", "BBMM", "MMBB", "MMBB"]);
}

#[test]
fn checkerboard_non_square() {
    let t = Texture::checkerboard(3, 2, 1, 0u8, 1u8);
    assert_eq!(t.data, vec![0, 1, 0, 1, 0, 1]);
}

#[test]
fn checkerboard_empty_with_zero_grid() {
    let t = Texture::checkerboard(0, 5, 0, 0u8, 1u8);
    assert!(t.data.is_empty());
}

#[test]
fn checkerboard_repeats_every_two_cells() {
    let g = 3;
    let t = Texture::checkerboard(20, 20, g, 0u8, 1u8);
    for y in 0..20 {
        for x in 0..20 - 2 * g {
            assert_eq!(t.data[y * 20 + x], t.data[y * 20 + x + 2 * g]);
            if x + g < 20 {
                assert_ne!(t.data[y * 20 + x], t.data[y * 20 + x + g]);
            }
        }
    }
}

#[test]
fn sample_reads_texel_and_clamps() {
    let t = Texture::new(3, 2, vec![10, 11, 12, 20, 21, 22]);
    assert_eq!(t.sample(0, 0), 10);
    assert_eq!(t.sample(2, 1), 22);
    assert_eq!(t.sample(1, 1), 21);
    assert_eq!(t.sample(7, 0), 12);
    assert_eq!(t.sample(0, 9), 20);
    assert_eq!(t.sample(usize::MAX, usize::MAX), 22);
}
