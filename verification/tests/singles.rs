use hqm_shootout::single::{less, MINUS_FIVE, MINUS_HALF, ZERO};

#[test]
fn constants_are_the_numbers_they_are_called() {
    assert_eq!(f32::from_bits(ZERO), 0.0);
    assert_eq!(f32::from_bits(MINUS_HALF), -0.5);
    assert_eq!(f32::from_bits(MINUS_FIVE), -5.0);
}

#[test]
fn order_is_the_order_of_the_numbers() {
    let numbers = [
        f32::NEG_INFINITY,
        f32::MIN,
        -1.0e20,
        -5.000001,
        -5.0,
        -4.999999,
        -1.0,
        -0.50000006,
        -0.5,
        -0.49999997,
        -f32::MIN_POSITIVE,
        -1.0e-45,
        -0.0,
        0.0,
        1.0e-45,
        f32::MIN_POSITIVE,
        0.99999994,
        1.0,
        1.0000001,
        30.5,
        1.0e20,
        f32::MAX,
        f32::INFINITY,
        f32::NAN,
        -f32::NAN,
    ];
    for a in numbers {
        for b in numbers {
            assert_eq!(less(a.to_bits(), b.to_bits()), a < b, "{} {}", a, b);
        }
    }
}
