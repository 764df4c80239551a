use soroscope::double::{one_decimal_text, percent_of, Double};
use soroscope::text::{append_left, append_repeated, append_right, decimal_text, same};

fn double(x: f64) -> Double {
    Double { bits: x.to_bits() }
}

#[test]
fn numbers_are_written_as_the_standard_library_writes_them() {
    let values: Vec<f64> = vec![
        0.0,
        -0.0,
        0.05,
        0.15,
        0.25,
        0.35,
        0.049_999_999,
        -0.05,
        -0.25,
        1.0,
        15.4,
        -2.1,
        99.95,
        99.949_999_999_999_99,
        100.0,
        0.1,
        1e-320,
        f64::MIN_POSITIVE,
        123_456_789.123,
        1e15,
        4_503_599_627_370_495.5,
        9_007_199_254_740_993.0,
        1e22,
        1e300,
        f64::MAX,
        f64::MIN,
        f64::INFINITY,
        f64::NEG_INFINITY,
        f64::NAN,
    ];
    for value in values {
        assert_eq!(one_decimal_text(double(value)), format!("{:+.1}", value));
    }
}

#[test]
fn many_numbers_are_written_as_the_standard_library_writes_them() {
    let mut state: u64 = 88_172_645_463_325_252;
    for round in 0..3_000u64 {
        state ^= state << 13;
        state ^= state >> 7;
        state ^= state << 17;
        let value = if round % 2 == 0 {
            f64::from_bits(state)
        } else {
            (state % 100_000) as f64 / 1024.0 - 40.0
        };
        assert_eq!(one_decimal_text(double(value)), format!("{:+.1}", value), "{}", value);
    }
}

#[test]
fn numbers_are_compared_as_numbers() {
    let values: Vec<f64> = vec![
        f64::NEG_INFINITY,
        -25.0,
        -0.1,
        -0.0,
        0.0,
        1e-310,
        0.1,
        10.0,
        10.000_000_000_000_002,
        25.0,
        f64::INFINITY,
        f64::NAN,
    ];
    for a in values.iter() {
        for b in values.iter() {
            assert_eq!(double(*a).is_above(double(*b)), a > b, "{} over {}", a, b);
        }
    }
}

#[test]
fn rounding_goes_to_the_nearest_and_to_the_even_number() {
    // 2^53 + 1 lies between two numbers, and goes to the even one.
    assert_eq!(percent_of((1 << 53) + 1, 1 << 53).bits, 0);
    assert_eq!(percent_of((1 << 53) + 3, 1 << 53).bits, (((4.0f64) / 2f64.powi(53)) * 100.0).to_bits());
    // A third of a hundred is the number nearest to it.
    assert_eq!(percent_of(4, 3).bits, ((1.0f64 / 3.0) * 100.0).to_bits());
    assert_eq!(percent_of(2, 3).bits, ((-1.0f64 / 3.0) * 100.0).to_bits());
    // A greater value never has a lesser percentage.
    let mut last = f64::NEG_INFINITY;
    for current in 0..500u64 {
        let percent = f64::from_bits(percent_of(current, 173).bits);
        assert!(percent >= last);
        last = percent;
    }
}

#[test]
fn integers_are_written_in_decimal() {
    let values: Vec<u64> = vec![0, 1, 9, 10, 99, 100, 1_234_567_890, u64::MAX];
    for n in values {
        assert_eq!(decimal_text(n), n.to_string());
    }
}

#[test]
fn cells_are_filled_with_spaces() {
    let mut out = "|".to_string();
    append_left(&mut out, "ab", 4);
    append_right(&mut out, "\u{e9}", 3);
    append_left(&mut out, "toolong", 3);
    append_repeated(&mut out, "-=", 2);
    assert_eq!(out, "|ab    \u{e9}toolong-=-=");
}

#[test]
fn texts_are_compared_by_their_characters() {
    assert!(same("mode", "mode"));
    assert!(!same("mode", "Mode"));
    assert!(!same("mode", "mode "));
    assert!(same("", ""));
}
