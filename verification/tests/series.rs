use halign::factorial;
use halign::series::{x_term, y_term, SeriesTerm, MAX_TERM, NUMITER};

#[test]
fn test_numiter() {
    assert_eq!(NUMITER, 6);
    assert_eq!(MAX_TERM, 9);
}

#[test]
fn test_x_term_first() {
    assert_eq!(x_term(0), SeriesTerm { negative: false, power: 0, divisor: 1 });
    assert_eq!(x_term(1), SeriesTerm { negative: true, power: 2, divisor: 10 });
    assert_eq!(x_term(2), SeriesTerm { negative: false, power: 4, divisor: 216 });
    assert_eq!(x_term(3), SeriesTerm { negative: true, power: 6, divisor: 9360 });
}

#[test]
fn test_y_term_first() {
    assert_eq!(y_term(0), SeriesTerm { negative: false, power: 1, divisor: 3 });
    assert_eq!(y_term(1), SeriesTerm { negative: true, power: 3, divisor: 42 });
    assert_eq!(y_term(2), SeriesTerm { negative: false, power: 5, divisor: 1320 });
    assert_eq!(y_term(3), SeriesTerm { negative: true, power: 7, divisor: 75600 });
}

#[test]
fn test_x_term_last() {
    let term = x_term(NUMITER);
    assert_eq!(term.negative, false);
    assert_eq!(term.power, 12);
    assert_eq!(term.divisor, 25 * 479001600);
}

#[test]
fn test_y_term_last() {
    let term = y_term(NUMITER - 1);
    assert_eq!(term.negative, true);
    assert_eq!(term.power, 11);
    assert_eq!(term.divisor, 23 * 39916800);
}

#[test]
fn test_first_omitted_terms() {
    assert_eq!(x_term(NUMITER + 1).divisor, 2528170444800);
    assert_eq!(y_term(NUMITER).divisor, 168129561600);
}

#[test]
fn test_terms_follow_the_formula() {
    for n in 0..=MAX_TERM {
        let x = x_term(n);
        assert_eq!(x.negative, n % 2 == 1);
        assert_eq!(x.power as u64, 2 * n);
        assert_eq!(x.divisor, (4 * n + 1) * factorial(2 * n));
        let y = y_term(n);
        assert_eq!(y.negative, n % 2 == 1);
        assert_eq!(y.power as u64, 2 * n + 1);
        assert_eq!(y.divisor, (4 * n + 3) * factorial(2 * n + 1));
    }
}

#[test]
fn test_divisors_grow() {
    for n in 0..MAX_TERM {
        assert!(x_term(n).divisor < x_term(n + 1).divisor);
        assert!(y_term(n).divisor < y_term(n + 1).divisor);
    }
}

#[test]
fn test_largest_terms() {
    assert_eq!(x_term(9).divisor, 37 * 6402373705728000);
    assert_eq!(y_term(9).divisor, 39 * 121645100408832000);
}

/// Sums the two series in floating point, as a caller does, and compares
/// with known coordinates of a clothoid.
fn clothoid_point(parameter: f64, end_radius: f64, s: f64) -> (f64, f64) {
    let alpha = s * s / 2.0 / (parameter * parameter);
    let mut x = 0.0_f64;
    for n in 0..=NUMITER {
        let term = x_term(n);
        let value = alpha.powi(term.power as i32) / term.divisor as f64;
        x = if term.negative { x - value } else { x + value };
    }
    let mut y = 0.0_f64;
    for n in 0..NUMITER {
        let term = y_term(n);
        let value = alpha.powi(term.power as i32) / term.divisor as f64;
        y = if term.negative { y - value } else { y + value };
    }
    if end_radius > 0.0 {
        y = -y;
    }
    (x * s, y * s)
}

#[test]
fn test_series_gives_known_coordinates() {
    let (x, y) = clothoid_point(150.0, 250.0, 90.0);
    assert!((x - 89.709).abs() < 0.001);
    assert!((y - (-5.388)).abs() < 0.001);
    let (x, y) = clothoid_point(150.0, 250.0, 45.0);
    assert!((x - 44.991).abs() < 0.001);
    assert!((y - (-0.675)).abs() < 0.001);
    let (x, y) = clothoid_point(150.0, -250.0, 45.0);
    assert!((x - 44.991).abs() < 0.001);
    assert!((y - 0.675).abs() < 0.001);
}

#[test]
fn test_series_at_origin() {
    let (x, y) = clothoid_point(190.0, 450.0, 0.0);
    assert_eq!(x, 0.0);
    assert_eq!(y, 0.0);
}

#[test]
fn test_negated_radius_mirrors_the_point() {
    for s in [0.0, 10.0, 45.0, 80.222, 90.0, 150.0] {
        let (x, y) = clothoid_point(150.0, 250.0, s);
        let (mirrored_x, mirrored_y) = clothoid_point(150.0, -250.0, s);
        assert_eq!(mirrored_x, x);
        assert_eq!(mirrored_y, -y);
    }
}

#[test]
fn test_abscissa_grows_with_the_arc_length() {
    // Up to a deflection of a right angle, which a clothoid of parameter 190
    // reaches at the arc length 190 * sqrt(pi), about 336.8.
    let mut last = 0.0;
    let mut s = 0.5;
    while s <= 336.5 {
        let (x, _) = clothoid_point(190.0, 450.0, s);
        assert!(x > last);
        last = x;
        s += 0.5;
    }
}

#[test]
fn test_abscissa_turns_back_beyond_a_right_angle() {
    let (before, _) = clothoid_point(1.0, 1.0, 1.9);
    let (after, _) = clothoid_point(1.0, 1.0, 2.0);
    assert!(after < before);
}

#[test]
fn test_ordinate_has_the_side_of_the_turn() {
    for s in [1.0, 45.0, 90.0, 200.0] {
        let (x, y) = clothoid_point(150.0, 250.0, s);
        assert!(x > 0.0);
        assert!(y < 0.0);
        let (x, y) = clothoid_point(150.0, -250.0, s);
        assert!(x > 0.0);
        assert!(y > 0.0);
    }
}

#[test]
fn test_later_terms_stay_below_the_first_one_left_out() {
    // At a deflection of one radian, where the terms are largest.
    let alpha = 1.0_f64;
    let mut tail = 0.0_f64;
    for n in (NUMITER + 1)..=MAX_TERM {
        let term = x_term(n);
        let value = alpha.powi(term.power as i32) / term.divisor as f64;
        tail = if term.negative { tail - value } else { tail + value };
    }
    let first = 1.0 / x_term(NUMITER + 1).divisor as f64;
    assert!(tail <= 0.0);
    assert!(-tail <= first);
    assert!(first < 4e-13);
}
