use funk::visitors::interpreter::number::{absolute, integer, is_less, is_same, negate, not_a_number, sign_negative, truncate};

fn samples() -> Vec<f64> {
    vec![
        0.0,
        -0.0,
        1.0,
        -1.0,
        0.5,
        -0.5,
        1.5,
        -1.5,
        2.0,
        3.999,
        -3.999,
        1e-310,
        -1e-310,
        f64::MIN_POSITIVE,
        4503599627370496.0,
        4503599627370497.0,
        9007199254740992.0,
        9007199254740993.0,
        -9007199254740992.0,
        1e15,
        1e18,
        -1e18,
        9223372036854775807.0,
        9223372036854775808.0,
        -9223372036854775808.0,
        -9223372036854777856.0,
        1e19,
        -1e19,
        1e300,
        f64::MAX,
        f64::MIN,
        f64::INFINITY,
        f64::NEG_INFINITY,
        f64::NAN,
        -f64::NAN,
        123456.789,
        0.1 + 0.2,
    ]
}

#[test]
fn order_and_equality_are_those_of_floating_point_numbers() {
    for a in samples() {
        for b in samples() {
            assert_eq!(is_less(a.to_bits(), b.to_bits()), a < b, "{} < {}", a, b);
            assert_eq!(is_same(a.to_bits(), b.to_bits()), a == b, "{} == {}", a, b);
        }
    }
}

#[test]
fn sign_and_magnitude_are_read_off_the_bits() {
    for a in samples() {
        assert_eq!(sign_negative(a.to_bits()), a.is_sign_negative(), "{}", a);
        assert_eq!(not_a_number(a.to_bits()), a.is_nan(), "{}", a);
        assert_eq!(absolute(a.to_bits()), a.abs().to_bits(), "{}", a);
        assert_eq!(negate(a.to_bits()), (-a).to_bits(), "{}", a);
    }
}

#[test]
fn truncation_is_that_of_a_cast() {
    for a in samples() {
        assert_eq!(truncate(a.to_bits()), a as i64, "{}", a);
    }
    assert_eq!(truncate(2.9f64.to_bits()), 2);
    assert_eq!(truncate((-2.9f64).to_bits()), -2);
    assert_eq!(truncate(f64::NAN.to_bits()), 0);
    assert_eq!(truncate(1e30f64.to_bits()), i64::MAX);
    assert_eq!(truncate((-1e30f64).to_bits()), i64::MIN);
}

#[test]
fn whole_numbers_have_the_bits_of_their_cast() {
    let mut n: u64 = 0;
    while n <= 70_000 {
        assert_eq!(integer(n), Some((n as f64).to_bits()), "{}", n);
        n += 1;
    }
    for shift in 0..=53 {
        let power = 1u64 << shift;
        for n in [power - 1, power, power + 1] {
            if n <= 1 << 53 {
                assert_eq!(integer(n), Some((n as f64).to_bits()), "{}", n);
            } else {
                assert_eq!(integer(n), None, "{}", n);
            }
        }
    }
    assert_eq!(integer(7), Some(7.0f64.to_bits()));
    assert_eq!(integer(1_700_000_000_000), Some(1.7e12f64.to_bits()));
    assert_eq!(integer((1 << 53) + 1), None);
    assert_eq!(integer(u64::MAX), None);
}

#[test]
fn whole_numbers_come_back_from_their_bits() {
    for n in [0u64, 1, 2, 3, 255, 256, 65_535, 1 << 31, (1 << 52) + 1, (1 << 53) - 1, 1 << 53] {
        let bits = integer(n).unwrap();
        assert_eq!(truncate(bits), n as i64);
    }
}
