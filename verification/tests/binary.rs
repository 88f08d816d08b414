use satellite_viewer::binary::{Binary32, Binary64};

fn b(x: f64) -> Binary64 {
    Binary64 { bits: x.to_bits() }
}

const SAMPLES: [f64; 22] = [
    0.0,
    -0.0,
    5e-324,
    -5e-324,
    2.2250738585072014e-308,
    0.25,
    0.49999999999999994,
    0.5,
    -0.5,
    1.0,
    1.4999999999999998,
    1.5,
    2.5,
    -2.5,
    17.5,
    18.49,
    126.0,
    255.5,
    1e300,
    f64::INFINITY,
    f64::NEG_INFINITY,
    f64::NAN,
];

#[test]
fn order_is_that_of_the_numbers() {
    for x in SAMPLES {
        for y in SAMPLES {
            assert_eq!(b(x).lt(&b(y)), x < y, "{x} < {y}");
            assert_eq!(b(x).equals(&b(y)), x == y, "{x} == {y}");
            assert_eq!(b(x) == b(y), x == y, "{x} == {y}");
        }
    }
}

#[test]
fn min_and_max_pick_a_number() {
    for x in SAMPLES {
        for y in SAMPLES {
            let low = f64::from_bits(b(x).min(&b(y)).bits);
            let high = f64::from_bits(b(x).max(&b(y)).bits);
            if x.is_nan() && y.is_nan() {
                assert!(low.is_nan() && high.is_nan());
            } else {
                assert_eq!(low, x.min(y), "min of {x} and {y}");
                assert_eq!(high, x.max(y), "max of {x} and {y}");
            }
        }
    }
}

#[test]
fn floor_to_brings_into_range() {
    for x in SAMPLES {
        for high in [0u8, 1, 19, 255] {
            let expected = x.floor().clamp(0.0, high as f64) as u8;
            assert_eq!(b(x).floor_to(high), expected, "{x} to 0..={high}");
        }
    }
    assert_eq!(b(19.999).floor_to(19), 19);
    assert_eq!(b(4.75).floor_to(19), 4);
}

#[test]
fn round_to_brings_into_range() {
    for x in SAMPLES {
        for (low, high) in [(0u8, 255u8), (1, 18), (0, 0), (7, 7)] {
            let expected = x.round().clamp(low as f64, high as f64) as u8;
            assert_eq!(b(x).round_to(low, high), expected, "{x} to {low}..={high}");
        }
    }
    assert_eq!(b(4.5).round_to(1, 18), 5);
    assert_eq!(b(4.4).round_to(1, 18), 4);
}

#[test]
fn floor_and_round_agree_with_arithmetic_on_a_grid() {
    let mut k: i32 = -300;
    while k <= 30_000 {
        let x = k as f64 / 100.0;
        assert_eq!(b(x).floor_to(19), x.floor().clamp(0.0, 19.0) as u8, "{x}");
        assert_eq!(b(x).round_to(1, 18), x.round().clamp(1.0, 18.0) as u8, "{x}");
        k += 1;
    }
}

#[test]
fn single_precision_equality_is_that_of_the_numbers() {
    let samples = [0.0f32, -0.0, 1e-45, -1e-45, 0.6, 0.8, 1.0, f32::MAX, f32::INFINITY, f32::NAN];
    for x in samples {
        for y in samples {
            let (a, c) = (Binary32 { bits: x.to_bits() }, Binary32 { bits: y.to_bits() });
            assert_eq!(a == c, x == y, "{x} == {y}");
            assert_eq!(a.equals(&c), x == y, "{x} == {y}");
        }
    }
}
