use koto_audio::ieee::{
    abs_f32, abs_f64, clamp_f32, clamp_f64, is_nan_f32, is_nan_f64, lt_f32, lt_f64, F32_INFINITY, F32_ONE,
    F32_SIGN, F32_ZERO, F64_INFINITY, F64_SIGN,
};

fn singles() -> Vec<f32> {
    vec![
        0.0,
        -0.0,
        1.0,
        -1.0,
        0.5,
        -0.5,
        0.3,
        1.0e-45,
        -1.0e-45,
        f32::MIN_POSITIVE,
        f32::MAX,
        f32::MIN,
        f32::INFINITY,
        f32::NEG_INFINITY,
        f32::NAN,
        -f32::NAN,
        2.5,
        1.0000001,
        0.9999999,
    ]
}

fn doubles() -> Vec<f64> {
    vec![
        0.0,
        -0.0,
        1.0,
        -1.0,
        20.0,
        999.0,
        120.0,
        5.0e-324,
        -5.0e-324,
        f64::MAX,
        f64::MIN,
        f64::INFINITY,
        f64::NEG_INFINITY,
        f64::NAN,
        -f64::NAN,
        998.9999999999999,
    ]
}

#[test]
fn constants_are_the_encodings() {
    assert_eq!(F32_ZERO, 0.0f32.to_bits());
    assert_eq!(F32_ONE, 1.0f32.to_bits());
    assert_eq!(F32_INFINITY, f32::INFINITY.to_bits());
    assert_eq!(F32_SIGN, (-0.0f32).to_bits());
    assert_eq!(F64_INFINITY, f64::INFINITY.to_bits());
    assert_eq!(F64_SIGN, (-0.0f64).to_bits());
}

#[test]
fn single_magnitude_and_nan() {
    for v in singles() {
        assert_eq!(abs_f32(v.to_bits()), v.abs().to_bits());
        assert_eq!(is_nan_f32(v.to_bits()), v.is_nan());
    }
}

#[test]
fn double_magnitude_and_nan() {
    for v in doubles() {
        assert_eq!(abs_f64(v.to_bits()), v.abs().to_bits());
        assert_eq!(is_nan_f64(v.to_bits()), v.is_nan());
    }
}

#[test]
fn single_order_is_the_order_of_the_numbers() {
    for a in singles() {
        for b in singles() {
            assert_eq!(lt_f32(a.to_bits(), b.to_bits()), a < b, "{} < {}", a, b);
        }
    }
}

#[test]
fn double_order_is_the_order_of_the_numbers() {
    for a in doubles() {
        for b in doubles() {
            assert_eq!(lt_f64(a.to_bits(), b.to_bits()), a < b, "{} < {}", a, b);
        }
    }
}

#[test]
fn single_clamp_is_the_clamp_of_the_numbers() {
    for v in singles() {
        let got = clamp_f32(v.to_bits(), 0.0f32.to_bits(), 1.0f32.to_bits());
        assert_eq!(got, v.clamp(0.0, 1.0).to_bits(), "for {}", v);
    }
}

#[test]
fn double_clamp_is_the_clamp_of_the_numbers() {
    for v in doubles() {
        let got = clamp_f64(v.to_bits(), 20.0f64.to_bits(), 999.0f64.to_bits());
        assert_eq!(got, v.clamp(20.0, 999.0).to_bits(), "for {}", v);
    }
}
