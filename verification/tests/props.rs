use balanced_ternary::{T5, T10, T20, T40, Bal3, ParseBalTernError, find_first_non_zero};

#[test]
fn t5_native_roundtrip_full_range() {
    for v in (T5::MIN as i16)..=(T5::MAX as i16) {
        let t = T5::try_from(v as i8).unwrap();
        assert_eq!(t.to_native(), v as i8);
    }
}

#[test]
fn t10_native_roundtrip_full_range() {
    for v in (T10::MIN as i32)..=(T10::MAX as i32) {
        let t = T10::try_from(v as i16).unwrap();
        assert_eq!(t.to_native(), v as i16);
    }
}

#[test]
fn t20_native_roundtrip_samples() {
    let samples: Vec<i32> = vec![
        T20::MIN,
        T20::MIN + 1,
        -1743392199,
        -48,
        -1,
        0,
        1,
        6,
        48,
        121,
        29525,
        1743392199,
        T20::MAX - 1,
        T20::MAX,
    ];
    for v in samples {
        let t = T20::try_from(v).unwrap();
        assert_eq!(t.to_native(), v);
    }
}

#[test]
fn t40_native_roundtrip_samples() {
    let samples: Vec<i64> = vec![
        T40::MIN,
        T40::MIN + 1,
        -6078832729528464399,
        -1743392201,
        -48,
        -1,
        0,
        1,
        6,
        48,
        1743392201,
        6078832729528464399,
        T40::MAX - 1,
        T40::MAX,
    ];
    for v in samples {
        let t = T40::try_from(v).unwrap();
        assert_eq!(t.to_native(), v);
    }
}

#[test]
fn t5_display_parse_roundtrip_full_range() {
    for v in (T5::MIN as i16)..=(T5::MAX as i16) {
        let t = T5::try_from(v as i8).unwrap();
        let s = t.display();
        if v == 0 {
            assert_eq!(s, "");
        } else {
            assert_eq!(T5::from_str(&s).unwrap().to_native(), v as i8);
        }
    }
}

#[test]
fn t10_display_parse_roundtrip_full_range() {
    for v in (T10::MIN as i32)..=(T10::MAX as i32) {
        let t = T10::try_from(v as i16).unwrap();
        let s = t.display();
        if v == 0 {
            assert_eq!(s, "");
        } else {
            assert_eq!(T10::from_str(&s).unwrap().to_native(), v as i16);
        }
    }
}

#[test]
fn t40_display_parse_roundtrip_samples() {
    let samples: Vec<i64> = vec![T40::MIN, -6078832729528464399, -2, -1, 1, 2, 29525, T40::MAX];
    for v in samples {
        let t = T40::try_from(v).unwrap();
        let s = t.display();
        assert_eq!(T40::from_str(&s).unwrap().to_native(), v);
    }
}

#[test]
fn display_zero_is_empty_every_width() {
    assert_eq!(T5::try_from(0).unwrap().display(), "");
    assert_eq!(T10::try_from(0).unwrap().display(), "");
    assert_eq!(T20::try_from(0).unwrap().display(), "");
    assert_eq!(T40::try_from(0).unwrap().display(), "");
}

#[test]
fn t5_parse_accepts_leading_zeros() {
    // Short input is left-padded, so explicit leading zeros parse the same.
    assert_eq!(T5::from_str("001T0").unwrap(), T5::try_from(6).unwrap());
    assert_eq!(T5::from_str("1T0").unwrap(), T5::try_from(6).unwrap());
    assert_eq!(T5::from_str("1T0").unwrap().to_native(), 6);
}

#[test]
fn t5_canonical_digits_of_six() {
    // 6 = 9 - 3: one at the 9s place, negative one at the 3s place.
    assert_eq!(
        T5::try_from(6).unwrap().trits(),
        vec![Bal3::Zero, Bal3::Zero, Bal3::One, Bal3::NegativeOne, Bal3::Zero]
    );
    assert_eq!(T5::try_from(6).unwrap().display(), "1T0");
}

#[test]
fn t5_arithmetic_agreement_full_range() {
    for a in (-121i16)..=121 {
        for b in (-121i16)..=121 {
            let x = T5::try_from(a as i8).unwrap();
            let y = T5::try_from(b as i8).unwrap();
            let sum = a + b;
            let add = x.clone().add(y.clone());
            if sum >= -121 && sum <= 121 {
                assert_eq!(add.unwrap().to_native() as i16, sum);
            } else {
                assert!(add.is_err());
            }
            let diff = a - b;
            let sub = x.clone().sub(y.clone());
            if diff >= -121 && diff <= 121 {
                assert_eq!(sub.unwrap().to_native() as i16, diff);
            } else {
                assert!(sub.is_err());
            }
            let prod = a * b;
            let mul = x.clone().mul(y.clone());
            if prod >= -121 && prod <= 121 {
                assert_eq!(mul.unwrap().to_native() as i16, prod);
            } else {
                assert!(mul.is_err());
            }
            assert_eq!(x.neg().unwrap().to_native() as i16, -a);
        }
    }
}

#[test]
fn t40_arithmetic_agreement_samples() {
    let samples: Vec<i64> = vec![T40::MIN, -1743392201, -48, -1, 0, 1, 48, 1743392201, T40::MAX];
    for &a in &samples {
        for &b in &samples {
            let x = T40::try_from(a).unwrap();
            let y = T40::try_from(b).unwrap();
            match a.checked_add(b) {
                Some(sum) if sum >= T40::MIN && sum <= T40::MAX => {
                    assert_eq!(x.clone().add(y.clone()).unwrap().to_native(), sum);
                }
                _ => {
                    assert!(x.clone().add(y.clone()).is_err());
                }
            }
            match a.checked_sub(b) {
                Some(diff) if diff >= T40::MIN && diff <= T40::MAX => {
                    assert_eq!(x.clone().sub(y.clone()).unwrap().to_native(), diff);
                }
                _ => {
                    assert!(x.clone().sub(y.clone()).is_err());
                }
            }
            match a.checked_mul(b) {
                Some(prod) if prod >= T40::MIN && prod <= T40::MAX => {
                    assert_eq!(x.clone().mul(y.clone()).unwrap().to_native(), prod);
                }
                _ => {
                    assert!(x.clone().mul(y.clone()).is_err());
                }
            }
            assert_eq!(x.neg().unwrap().to_native(), -a);
        }
    }
}

#[test]
fn parse_boundary_lengths() {
    // Exactly the width parses; one more fails with the sign's overflow kind.
    assert_eq!(T5::from_str("11111").unwrap().to_native(), 121);
    assert_eq!(T5::from_str("TTTTT").unwrap().to_native(), -121);
    assert_eq!(T5::from_str("111111").unwrap_err(), ParseBalTernError::PosOverflow);
    assert_eq!(T5::from_str("TTTTTT").unwrap_err(), ParseBalTernError::NegOverflow);
    // An overlong string starting with a digit that fixes no sign.
    assert_eq!(T5::from_str("011111").unwrap_err(), ParseBalTernError::InvalidChar);
}

#[test]
fn find_first_non_zero_capacities() {
    // Smallest k whose cumulative capacity 1, 4, 13, 40, ... reaches |value|.
    assert_eq!(find_first_non_zero(1), (0, true));
    assert_eq!(find_first_non_zero(-1), (0, false));
    assert_eq!(find_first_non_zero(2), (1, true));
    assert_eq!(find_first_non_zero(4), (1, true));
    assert_eq!(find_first_non_zero(5), (2, true));
    assert_eq!(find_first_non_zero(13), (2, true));
    assert_eq!(find_first_non_zero(14), (3, true));
    assert_eq!(find_first_non_zero(-48), (4, false));
    assert_eq!(find_first_non_zero(0), (0, true));
    assert_eq!(find_first_non_zero(6078832729528464400), (39, true));
}
