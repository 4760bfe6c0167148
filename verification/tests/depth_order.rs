use cpu_renderer::depth::{binary32_less, DEPTH_FAR, NEGATIVE_ZERO, POSITIVE_ZERO};

fn samples() -> Vec<f32> {
    vec![
        0.0,
        -0.0,
        1.0,
        -1.0,
        0.5,
        0.25,
        1.5,
        -0.75,
        f32::MIN_POSITIVE,
        -f32::MIN_POSITIVE,
        f32::from_bits(1),
        f32::from_bits(0x8000_0001),
        f32::MAX,
        f32::MIN,
        f32::INFINITY,
        f32::NEG_INFINITY,
        f32::NAN,
        -f32::NAN,
        f32::from_bits(0x7F80_0001),
        f32::from_bits(0xFFC0_1234),
        123456.0,
        -0.000123,
    ]
}

#[test]
fn binary32_less_agrees_with_f32_lt() {
    for a in samples() {
        for b in samples() {
            assert_eq!(
                binary32_less(a.to_bits(), b.to_bits()),
                a < b,
                "{:?} < {:?}",
                a,
                b
            );
        }
    }
}

#[test]
fn depth_far_is_one() {
    assert_eq!(DEPTH_FAR, 1.0f32.to_bits());
    assert_eq!(POSITIVE_ZERO, 0.0f32.to_bits());
    assert_eq!(NEGATIVE_ZERO, (-0.0f32).to_bits());
}

#[test]
fn zeros_compare_equal() {
    assert!(!binary32_less(POSITIVE_ZERO, NEGATIVE_ZERO));
    assert!(!binary32_less(NEGATIVE_ZERO, POSITIVE_ZERO));
}

#[test]
fn nan_is_unordered() {
    let nan = f32::NAN.to_bits();
    assert!(!binary32_less(nan, 1.0f32.to_bits()));
    assert!(!binary32_less(1.0f32.to_bits(), nan));
    assert!(!binary32_less(nan, nan));
}

#[test]
fn less_is_irreflexive_and_transitive_on_samples() {
    let s = samples();
    for a in &s {
        assert!(!binary32_less(a.to_bits(), a.to_bits()));
        for b in &s {
            for c in &s {
                if binary32_less(a.to_bits(), b.to_bits()) && binary32_less(b.to_bits(), c.to_bits()) {
                    assert!(binary32_less(a.to_bits(), c.to_bits()));
                }
            }
        }
    }
}

#[test]
fn nonnegative_order_is_bit_order() {
    let a = 0.5f32.to_bits();
    let b = 3.0f32.to_bits();
    assert!(a < b);
    assert!(binary32_less(a, b));
}
