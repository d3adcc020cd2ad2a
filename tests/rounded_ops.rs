use fpdec::{AddRounded, Decimal, DivRounded, MulRounded, RoundingMode, SubRounded};

fn quotient(n: i128, d: i128, mode: RoundingMode) -> i128 {
    let z = Decimal::new_raw(n, 0).div_rounded_with_mode(Decimal::new_raw(d, 0), 0, mode);
    assert_eq!(z.n_frac_digits, 0);
    z.coeff
}

#[test]
fn rounding_division_per_mode() {
    let cases: [(i128, i128, RoundingMode, i128); 34] = [
        (17, 5, RoundingMode::Round05Up, 3),
        (27, 5, RoundingMode::Round05Up, 6),
        (-17, 5, RoundingMode::Round05Up, -3),
        (-27, 5, RoundingMode::Round05Up, -6),
        (17, 5, RoundingMode::RoundCeiling, 4),
        (15, 5, RoundingMode::RoundCeiling, 3),
        (-17, 5, RoundingMode::RoundCeiling, -3),
        (-15, 5, RoundingMode::RoundCeiling, -3),
        (19, 5, RoundingMode::RoundDown, 3),
        (15, 5, RoundingMode::RoundDown, 3),
        (-18, 5, RoundingMode::RoundDown, -3),
        (-15, 5, RoundingMode::RoundDown, -3),
        (19, 5, RoundingMode::RoundFloor, 3),
        (15, 5, RoundingMode::RoundFloor, 3),
        (-18, 5, RoundingMode::RoundFloor, -4),
        (-15, 5, RoundingMode::RoundFloor, -3),
        (19, 2, RoundingMode::RoundHalfDown, 9),
        (15, 4, RoundingMode::RoundHalfDown, 4),
        (-19, 2, RoundingMode::RoundHalfDown, -9),
        (-15, 4, RoundingMode::RoundHalfDown, -4),
        (19, 2, RoundingMode::RoundHalfEven, 10),
        (15, 4, RoundingMode::RoundHalfEven, 4),
        (-225, 50, RoundingMode::RoundHalfEven, -4),
        (-15, 4, RoundingMode::RoundHalfEven, -4),
        (u64::MAX as i128, i64::MIN as i128 * 10, RoundingMode::RoundHalfEven, 0),
        (19, 2, RoundingMode::RoundHalfUp, 10),
        (10802, 4321, RoundingMode::RoundHalfUp, 2),
        (-19, 2, RoundingMode::RoundHalfUp, -10),
        (-10802, 4321, RoundingMode::RoundHalfUp, -2),
        (19, 2, RoundingMode::RoundUp, 10),
        (10802, 4321, RoundingMode::RoundUp, 3),
        (-19, 2, RoundingMode::RoundUp, -10),
        (-10802, 4321, RoundingMode::RoundUp, -3),
        (i32::MAX as i128, 1, RoundingMode::RoundUp, i32::MAX as i128),
    ];
    for (n, d, mode, expected) in cases {
        assert_eq!(quotient(n, d, mode), expected);
    }
}

#[test]
fn rounding_division_within_one() {
    let modes = [
        RoundingMode::Round05Up,
        RoundingMode::RoundCeiling,
        RoundingMode::RoundDown,
        RoundingMode::RoundFloor,
        RoundingMode::RoundHalfDown,
        RoundingMode::RoundHalfEven,
        RoundingMode::RoundHalfUp,
        RoundingMode::RoundUp,
    ];
    for n in -30i128..=30 {
        for d in [1i128, 2, 3, 7, 10, -4, -9] {
            for mode in modes {
                let q = quotient(n, d, mode);
                assert!((q * d - n).abs() < d.abs());
                if n % d == 0 {
                    assert_eq!(q * d, n);
                }
            }
        }
    }
}

#[test]
fn rounding_division_ties() {
    assert_eq!(quotient(25, 10, RoundingMode::RoundHalfEven), 2);
    assert_eq!(quotient(35, 10, RoundingMode::RoundHalfEven), 4);
    assert_eq!(quotient(-25, 10, RoundingMode::RoundHalfEven), -2);
    assert_eq!(quotient(25, 10, RoundingMode::RoundHalfUp), 3);
    assert_eq!(quotient(-25, 10, RoundingMode::RoundHalfUp), -3);
    assert_eq!(quotient(25, 10, RoundingMode::RoundHalfDown), 2);
    assert_eq!(quotient(-25, 10, RoundingMode::RoundHalfDown), -2);
}

#[test]
fn mul_rounded_negative_operand() {
    let x = Decimal::new_raw(-12345, 2);
    let y = Decimal::new_raw(5781, 4);
    let expected = [
        (RoundingMode::RoundHalfEven, -714),
        (RoundingMode::RoundFloor, -714),
        (RoundingMode::RoundCeiling, -713),
        (RoundingMode::RoundDown, -713),
        (RoundingMode::RoundUp, -714),
    ];
    for (mode, coeff) in expected {
        let z = x.mul_rounded_with_mode(y, 1, mode);
        assert_eq!(z.coeff, coeff);
        assert_eq!(z.n_frac_digits, 1);
    }
}

#[test]
fn mul_rounded_largest_reduction() {
    let x = Decimal::new_raw(1, 19);
    let z = x.mul_rounded_with_mode(x, 0, RoundingMode::RoundHalfEven);
    assert_eq!((z.coeff, z.n_frac_digits), (0, 0));
    let z = x.mul_rounded_with_mode(x, 0, RoundingMode::RoundUp);
    assert_eq!((z.coeff, z.n_frac_digits), (1, 0));
    let z = x.mul_rounded_with_mode(x, 38, RoundingMode::RoundUp);
    assert_eq!((z.coeff, z.n_frac_digits), (1, 38));
}

#[test]
fn mul_rounded_commutes() {
    let x = Decimal::new_raw(-987, 1);
    let y = Decimal::new_raw(4321, 3);
    for n in 0u8..8 {
        let a = x.mul_rounded(y, n);
        let b = y.mul_rounded(x, n);
        assert_eq!((a.coeff, a.n_frac_digits), (b.coeff, b.n_frac_digits));
    }
}

#[test]
fn add_rounded_aligns_and_rounds() {
    let x = Decimal::new_raw(125, 2);
    let y = Decimal::new_raw(125, 3);
    let z = x.add_rounded(y, 2);
    assert_eq!((z.coeff, z.n_frac_digits), (138, 2));
    let z = x.add_rounded_with_mode(y, 2, RoundingMode::RoundHalfDown);
    assert_eq!((z.coeff, z.n_frac_digits), (137, 2));
    let z = x.add_rounded_with_mode(y, 2, RoundingMode::RoundFloor);
    assert_eq!((z.coeff, z.n_frac_digits), (137, 2));
    let z = x.add_rounded(y, 3);
    assert_eq!((z.coeff, z.n_frac_digits), (1375, 3));
    let z = x.add_rounded(y, 9);
    assert_eq!((z.coeff, z.n_frac_digits), (1375, 3));
    let z = y.add_rounded(x, 0);
    assert_eq!((z.coeff, z.n_frac_digits), (1, 0));
}

#[test]
fn sub_rounded_aligns_and_rounds() {
    let x = Decimal::new_raw(125, 2);
    let y = Decimal::new_raw(125, 3);
    let z = x.sub_rounded_with_mode(y, 2, RoundingMode::RoundHalfEven);
    assert_eq!((z.coeff, z.n_frac_digits), (112, 2));
    let z = x.sub_rounded_with_mode(y, 2, RoundingMode::RoundHalfUp);
    assert_eq!((z.coeff, z.n_frac_digits), (113, 2));
    let z = x.sub_rounded(y, 5);
    assert_eq!((z.coeff, z.n_frac_digits), (1125, 3));
    let expected = [
        (RoundingMode::RoundHalfEven, -112),
        (RoundingMode::RoundHalfUp, -113),
        (RoundingMode::RoundHalfDown, -112),
        (RoundingMode::RoundFloor, -113),
        (RoundingMode::RoundCeiling, -112),
        (RoundingMode::RoundDown, -112),
        (RoundingMode::RoundUp, -113),
    ];
    for (mode, coeff) in expected {
        let z = y.sub_rounded_with_mode(x, 2, mode);
        assert_eq!((z.coeff, z.n_frac_digits), (coeff, 2));
    }
}

#[test]
fn div_rounded_always_has_target_scale() {
    let one = Decimal::new_raw(1, 0);
    let three = Decimal::new_raw(3, 0);
    let z = one.div_rounded(three, 4);
    assert_eq!((z.coeff, z.n_frac_digits), (3333, 4));
    let two = Decimal::new_raw(2, 0);
    let z = two.div_rounded(three, 4);
    assert_eq!((z.coeff, z.n_frac_digits), (6667, 4));
    let z = Decimal::new_raw(-2, 0).div_rounded(three, 4);
    assert_eq!((z.coeff, z.n_frac_digits), (-6667, 4));
    let z = one.div_rounded(Decimal::new_raw(-3, 1), 2);
    assert_eq!((z.coeff, z.n_frac_digits), (-333, 2));
    let z = Decimal::new_raw(12345, 4).div_rounded(two, 1);
    assert_eq!((z.coeff, z.n_frac_digits), (6, 1));
    let z = Decimal::new_raw(-15, 0).div_rounded_with_mode(Decimal::new_raw(5, 0), 0, RoundingMode::RoundFloor);
    assert_eq!((z.coeff, z.n_frac_digits), (-3, 0));
    let z = Decimal::new_raw(-15, 0).div_rounded_with_mode(Decimal::new_raw(5, 0), 0, RoundingMode::RoundUp);
    assert_eq!((z.coeff, z.n_frac_digits), (-3, 0));
}

#[test]
fn call_shapes_agree() {
    let x = Decimal::new_raw(-12345, 3);
    let y = Decimal::new_raw(678, 1);
    let owned = [
        x.add_rounded(y, 2),
        x.sub_rounded(y, 2),
        x.mul_rounded(y, 2),
        x.div_rounded(y, 2),
    ];
    let left = [
        AddRounded::add_rounded(&x, y, 2),
        SubRounded::sub_rounded(&x, y, 2),
        MulRounded::mul_rounded(&x, y, 2),
        DivRounded::div_rounded(&x, y, 2),
    ];
    let right = [
        AddRounded::add_rounded(x, &y, 2),
        SubRounded::sub_rounded(x, &y, 2),
        MulRounded::mul_rounded(x, &y, 2),
        DivRounded::div_rounded(x, &y, 2),
    ];
    let both = [
        AddRounded::add_rounded(&x, &y, 2),
        SubRounded::sub_rounded(&x, &y, 2),
        MulRounded::mul_rounded(&x, &y, 2),
        DivRounded::div_rounded(&x, &y, 2),
    ];
    for i in 0..4 {
        assert_eq!(owned[i], left[i]);
        assert_eq!(owned[i], right[i]);
        assert_eq!(owned[i], both[i]);
    }
    assert_eq!((owned[0].coeff, owned[0].n_frac_digits), (5546, 2));
    assert_eq!((owned[1].coeff, owned[1].n_frac_digits), (-8014, 2));
    assert_eq!((owned[2].coeff, owned[2].n_frac_digits), (-83699, 2));
    assert_eq!((owned[3].coeff, owned[3].n_frac_digits), (-18, 2));
}
