use landmass::fbits::{check_finite, check_in_unit, check_nonneg, check_unit_vec3, clamp255};

fn reference_clamp(h: f32) -> u32 {
    h.max(0.0).min(255.0) as u32
}

#[test]
fn nonneg_matches_float_comparison() {
    let samples: Vec<f32> = vec![
        0.0,
        -0.0,
        1.0,
        -1.0,
        0.5,
        -0.5,
        255.0,
        256.0,
        -256.0,
        1e-40,
        -1e-40,
        1e30,
        -1e30,
        f32::INFINITY,
        f32::NEG_INFINITY,
        f32::MIN_POSITIVE,
    ];
    for h in samples {
        assert_eq!(check_nonneg(h.to_bits()), h >= 0.0 || h == 0.0, "h = {h}");
    }
    assert!(!check_nonneg(f32::NAN.to_bits()));
    assert!(!check_nonneg((-f32::NAN).to_bits()));
}

#[test]
fn negative_zero_counts_as_nonneg() {
    assert!(check_nonneg((-0.0f32).to_bits()));
    assert_eq!(clamp255((-0.0f32).to_bits()), 0);
}

#[test]
fn clamp_matches_float_reference_on_edge_values() {
    let samples: Vec<f32> = vec![
        0.0,
        0.25,
        0.5,
        0.9999999,
        1.0,
        1.5,
        2.0,
        100.0,
        127.5,
        128.0,
        254.0,
        254.99,
        255.0,
        255.5,
        255.99,
        256.0,
        1000.0,
        65536.0,
        1e30,
        f32::INFINITY,
        f32::MIN_POSITIVE,
        1e-40,
    ];
    for h in samples {
        assert_eq!(clamp255(h.to_bits()), reference_clamp(h), "h = {h}");
    }
}

#[test]
fn clamp_matches_float_reference_on_a_sweep() {
    let mut h: f32 = 0.0;
    while h < 300.0 {
        assert_eq!(clamp255(h.to_bits()), reference_clamp(h), "h = {h}");
        h += 0.37;
    }
}

#[test]
fn unit_interval_check_matches_float_comparison() {
    let samples: Vec<f32> = vec![
        0.0,
        -0.0,
        1e-40,
        0.25,
        0.5,
        0.75,
        0.9999999,
        1.0,
        1.0000001,
        2.0,
        -0.25,
        -1.0,
        255.0,
        f32::INFINITY,
        f32::NEG_INFINITY,
    ];
    for u in samples {
        assert_eq!(check_in_unit(u.to_bits()), (0.0..=1.0).contains(&u), "u = {u}");
    }
    assert!(!check_in_unit(f32::NAN.to_bits()));
}

#[test]
fn finiteness_check_matches_float_classification() {
    for h in [0.0f32, -0.0, 1.0, -1.0, 255.0, 1e30, -1e38, 1e-40, f32::MAX, f32::MIN_POSITIVE] {
        assert!(check_finite(h.to_bits()), "h = {h}");
    }
    assert!(!check_finite(f32::INFINITY.to_bits()));
    assert!(!check_finite(f32::NEG_INFINITY.to_bits()));
    assert!(!check_finite(f32::NAN.to_bits()));
}

fn unit3(x: f32, y: f32, z: f32) -> bool {
    check_unit_vec3(x.to_bits(), y.to_bits(), z.to_bits())
}

#[test]
fn unit_vector_check_matches_float_length() {
    // Clearly unit vectors, normalized in floating point.
    let cases: Vec<[f32; 3]> = vec![
        [0.0, 1.0, 0.0],
        [1.0, 0.0, 0.0],
        [0.0, 0.0, -1.0],
        [0.6, 0.8, 0.0],
        [-0.6, 0.0, -0.8],
        [0.57735, 0.57735, 0.57735],
        [0.267261, 0.534522, 0.801784],
    ];
    for [x, y, z] in cases {
        let len = (x * x + y * y + z * z).sqrt();
        assert!((len - 1.0).abs() <= 1e-4);
        assert!(unit3(x, y, z), "({x}, {y}, {z})");
    }
    // Clearly not unit vectors.
    assert!(!unit3(0.0, 0.0, 0.0));
    assert!(!unit3(0.5, 0.5, 0.5));
    assert!(!unit3(2.0, 0.0, 0.0));
    assert!(!unit3(0.0, 1.001, 0.0));
    assert!(!unit3(0.0, 0.999, 0.0));
    assert!(!unit3(1.0, 1.0, 0.0));
    assert!(!unit3(f32::NAN, 1.0, 0.0));
    assert!(!unit3(f32::INFINITY, 0.0, 0.0));
    assert!(!unit3(0.0, f32::NEG_INFINITY, 0.0));
}
