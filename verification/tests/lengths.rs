use traffic_lights::points::Points;

fn points(length: f64) -> Points {
    Points { bits: length.to_bits() }
}

fn same(result: Points, expected: f64) -> bool {
    if expected.is_nan() {
        f64::from_bits(result.bits).is_nan()
    } else {
        result.bits == expected.to_bits()
    }
}

fn samples() -> Vec<f64> {
    let mut samples = vec![
        0.0,
        5e-324,
        1e-323,
        1.5e-323,
        2.2250738585072009e-308,
        f64::MIN_POSITIVE,
        1e-300,
        f64::EPSILON,
        0.1,
        0.5,
        1.0 - f64::EPSILON / 2.0,
        1.0,
        1.0 + f64::EPSILON,
        8.0,
        12.0,
        12.3,
        14.0,
        16.0,
        20.0,
        64.0,
        1e15,
        9007199254740991.0,
        9007199254740992.0,
        9007199254740994.0,
        1e17,
        2e18,
        1e300,
        f64::MAX / 2.0,
        9.9792015476736e291,
        f64::MAX,
        f64::INFINITY,
        f64::NAN,
    ];
    let mut seed: u64 = 0x9e37_79b9_7f4a_7c15;
    for _ in 0..400 {
        seed = seed.wrapping_mul(6364136223846793005).wrapping_add(1442695040888963407);
        let spread = f64::from_bits(seed & 0x7fff_ffff_ffff_ffff);
        samples.push(spread);
        let near = 0x3ff0_0000_0000_0000 + (seed >> 5 & 0x0fff_ffff_ffff_ffff) / 8;
        samples.push(f64::from_bits(near));
        samples.push((seed >> 40) as f64 / 256.0);
    }
    let negative: Vec<f64> = samples.iter().map(|length| -length).collect();
    samples.extend(negative);
    samples
}

#[test]
fn sums_and_differences_are_those_of_binary64() {
    let samples = samples();
    for &a in &samples {
        for &b in &samples {
            assert!(same(points(a).plus(points(b)), a + b), "{} + {}", a, b);
            assert!(same(points(a).minus(points(b)), a - b), "{} - {}", a, b);
        }
    }
}

#[test]
fn halves_are_those_of_binary64() {
    for a in samples() {
        assert!(same(points(a).halved(), a / 2.0), "{} / 2", a);
    }
}

#[test]
fn positive_lengths_are_those_of_binary64() {
    for a in samples() {
        assert_eq!(points(a).is_positive(), a > 0.0);
    }
}

#[test]
fn negation_changes_the_sign_only() {
    assert_eq!(points(1.5).negated(), points(-1.5));
    assert_eq!(points(-0.0).negated(), points(0.0));
}

#[test]
fn whole_numbers_of_points() {
    for count in [0u32, 1, 2, 3, 8, 12, 16, 20, 40, 64, 72, 1000, 65535, u32::MAX - 1, u32::MAX] {
        assert_eq!(Points::whole(count), points(count as f64));
    }
    assert_eq!(Points::zero(), points(0.0));
    assert_eq!(Points::whole(64).plus(Points::whole(8)), Points::whole(72));
}
