use krain_aivm::ieee::{greater, nan, positive};

fn samples() -> Vec<f32> {
    vec![
        0.0,
        -0.0,
        1.0,
        -1.0,
        0.5,
        -0.5,
        2.5e-3,
        -7.25e5,
        f32::MIN_POSITIVE,
        -f32::MIN_POSITIVE,
        f32::from_bits(1),
        f32::from_bits(0x8000_0001),
        f32::MAX,
        f32::MIN,
        f32::INFINITY,
        f32::NEG_INFINITY,
        f32::NAN,
        f32::from_bits(0x7fc0_0001),
        f32::from_bits(0xffc0_0000),
        f32::from_bits(0x7f80_0001),
    ]
}

#[test]
fn positive_agrees_with_binary32_comparison() {
    for x in samples() {
        assert_eq!(positive(x.to_bits()), x > 0.0, "value bits {:#x}", x.to_bits());
    }
}

#[test]
fn nan_agrees_with_binary32() {
    for x in samples() {
        assert_eq!(nan(x.to_bits()), x.is_nan(), "value bits {:#x}", x.to_bits());
    }
}

#[test]
fn greater_agrees_with_binary32_comparison() {
    for a in samples() {
        for b in samples() {
            assert_eq!(
                greater(a.to_bits(), b.to_bits()),
                a > b,
                "bits {:#x} > {:#x}",
                a.to_bits(),
                b.to_bits()
            );
        }
    }
}

#[test]
fn zeros_compare_equal() {
    assert!(!greater(0, 0x8000_0000));
    assert!(!greater(0x8000_0000, 0));
    assert!(!positive(0x8000_0000));
    assert!(!positive(0));
}
