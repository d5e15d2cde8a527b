use rtrs::binary32::Binary32;

fn b(v: f32) -> Binary32 {
    Binary32 { bits: v.to_bits() }
}

#[test]
fn comparisons_follow_f32() {
    let samples = [
        f32::NEG_INFINITY, -1.0e30, -2.5, -1.0, -1.0e-40, -0.0, 0.0, 1.0e-40, 0.5, 1.0, 3.0e38,
        f32::INFINITY, f32::NAN,
    ];
    for x in samples {
        for y in samples {
            assert_eq!(b(x).less_than(&b(y)), x < y, "{} < {}", x, y);
            assert_eq!(b(x).less_or_equal(&b(y)), x <= y, "{} <= {}", x, y);
            assert_eq!(b(x).equals(&b(y)), x == y, "{} == {}", x, y);
        }
        assert_eq!(b(x).is_nan(), x.is_nan());
        assert_eq!(b(x).abs().bits, x.abs().to_bits());
    }
}

#[test]
fn signed_zeros_are_equal() {
    assert!(b(0.0).equals(&b(-0.0)));
    assert!(!b(-0.0).less_than(&b(0.0)));
    assert_eq!(b(-0.0).abs().bits, 0);
}
