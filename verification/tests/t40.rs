use balanced_ternary::{T40, Bal3, TryFromIntError, ParseBalTernError};

#[test]
fn from_i64() {
    assert_eq!(T40::try_from(6).unwrap().trits(), vec![Bal3::Zero, Bal3::Zero, Bal3::Zero, Bal3::Zero, Bal3::Zero, Bal3::Zero, Bal3::Zero, Bal3::Zero, Bal3::Zero, Bal3::Zero, Bal3::Zero, Bal3::Zero, Bal3::Zero, Bal3::Zero, Bal3::Zero, Bal3::Zero, Bal3::Zero, Bal3::Zero, Bal3::Zero, Bal3::Zero, Bal3::Zero, Bal3::Zero, Bal3::Zero, Bal3::Zero, Bal3::Zero, Bal3::Zero, Bal3::Zero, Bal3::Zero, Bal3::Zero, Bal3::Zero, Bal3::Zero, Bal3::Zero, Bal3::Zero, Bal3::Zero, Bal3::Zero, Bal3::Zero, Bal3::Zero, Bal3::One, Bal3::NegativeOne, Bal3::Zero]);
    assert_eq!(T40::try_from(-48).unwrap().trits(), vec![Bal3::Zero, Bal3::Zero, Bal3::Zero, Bal3::Zero, Bal3::Zero, Bal3::Zero, Bal3::Zero, Bal3::Zero, Bal3::Zero, Bal3::Zero, Bal3::Zero, Bal3::Zero, Bal3::Zero, Bal3::Zero, Bal3::Zero, Bal3::Zero, Bal3::Zero, Bal3::Zero, Bal3::Zero, Bal3::Zero, Bal3::Zero, Bal3::Zero, Bal3::Zero, Bal3::Zero, Bal3::Zero, Bal3::Zero, Bal3::Zero, Bal3::Zero, Bal3::Zero, Bal3::Zero, Bal3::Zero, Bal3::Zero, Bal3::Zero, Bal3::Zero, Bal3::Zero, Bal3::NegativeOne, Bal3::One, Bal3::One, Bal3::NegativeOne, Bal3::Zero]);
    assert_eq!(T40::try_from(0).unwrap().trits(), vec![Bal3::Zero, Bal3::Zero, Bal3::Zero, Bal3::Zero, Bal3::Zero, Bal3::Zero, Bal3::Zero, Bal3::Zero, Bal3::Zero, Bal3::Zero, Bal3::Zero, Bal3::Zero, Bal3::Zero, Bal3::Zero, Bal3::Zero, Bal3::Zero, Bal3::Zero, Bal3::Zero, Bal3::Zero, Bal3::Zero, Bal3::Zero, Bal3::Zero, Bal3::Zero, Bal3::Zero, Bal3::Zero, Bal3::Zero, Bal3::Zero, Bal3::Zero, Bal3::Zero, Bal3::Zero, Bal3::Zero, Bal3::Zero, Bal3::Zero, Bal3::Zero, Bal3::Zero, Bal3::Zero, Bal3::Zero, Bal3::Zero, Bal3::Zero, Bal3::Zero]);
    assert_eq!(T40::try_from(T40::MAX + 1), Err(TryFromIntError::PosOverflow));
    assert_eq!(T40::try_from(T40::MIN - 1), Err(TryFromIntError::NegOverflow));
}

#[test]
fn t40_display() {
    let six = T40::try_from(6).unwrap();
    assert_eq!(format!("{:?}", six), "T40 { value: [Zero, Zero, Zero, Zero, Zero, Zero, Zero, Zero, Zero, Zero, Zero, Zero, Zero, Zero, Zero, Zero, Zero, Zero, Zero, Zero, Zero, Zero, Zero, Zero, Zero, Zero, Zero, Zero, Zero, Zero, Zero, Zero, Zero, Zero, Zero, Zero, Zero, One, NegativeOne, Zero] }");
    assert_eq!(six.display(), "1T0");
    let neg_forty_eight = T40::try_from(-48).unwrap();
    assert_eq!(format!("{:?}", neg_forty_eight), "T40 { value: [Zero, Zero, Zero, Zero, Zero, Zero, Zero, Zero, Zero, Zero, Zero, Zero, Zero, Zero, Zero, Zero, Zero, Zero, Zero, Zero, Zero, Zero, Zero, Zero, Zero, Zero, Zero, Zero, Zero, Zero, Zero, Zero, Zero, Zero, Zero, NegativeOne, One, One, NegativeOne, Zero] }");
    assert_eq!(neg_forty_eight.display(), "T11T0");
}

#[test]
fn t40_parse() {
    let neg_forty_eight: T40 = T40::from_str("T11T0").unwrap();
    assert_eq!(T40::try_from(-48).unwrap(), neg_forty_eight);
    assert_eq!(T40::try_from(6).unwrap(), T40::from_str("1T0").unwrap());
    assert_eq!(ParseBalTernError::Empty, T40::from_str("").unwrap_err());
    assert_eq!(ParseBalTernError::PosOverflow, T40::from_str("10T01100000000000000000000000000000000000").unwrap_err());
    assert_eq!(ParseBalTernError::NegOverflow, T40::from_str("T0T01100000000000000000000000000000000000").unwrap_err());
    assert_eq!(ParseBalTernError::InvalidChar, T40::from_str("q01T0100000000000000000000000000000000000").unwrap_err());
    assert_eq!(ParseBalTernError::InvalidChar, T40::from_str("11T#1").unwrap_err());
}

#[test]
fn t40_addition() {
    assert_eq!(
        T40::try_from(6).unwrap().add(T40::try_from(18).unwrap()).unwrap(),
        T40::try_from(24).unwrap()
    )
}

#[test]
fn t40_integer_overflow() {
    assert_eq!(
        T40::try_from(T40::MAX).unwrap().add(T40::try_from(1).unwrap()),
        Err(TryFromIntError::PosOverflow)
    );
}

#[test]
fn t40_subtraction() {
    assert_eq!(
        T40::try_from(6).unwrap().sub(T40::try_from(18).unwrap()).unwrap(),
        T40::try_from(-12).unwrap()
    )
}

#[test]
fn t40_integer_underflow() {
    assert_eq!(
        T40::try_from(T40::MIN).unwrap().sub(T40::try_from(1).unwrap()),
        Err(TryFromIntError::NegOverflow)
    );
}

#[test]
fn t40_negation() {
    assert_eq!(T40::try_from(6).unwrap().neg().unwrap(), T40::try_from(-6).unwrap())
}

#[test]
fn t40_multiplication() {
    assert_eq!(
        T40::try_from(6).unwrap().mul(T40::try_from(18).unwrap()).unwrap(),
        T40::try_from(108).unwrap()
    )
}

#[test]
fn t40_integer_oob() {
    assert_eq!(
        T40::try_from(61).unwrap().mul(T40::try_from(1000000000000000000).unwrap()),
        Err(TryFromIntError::PosOverflow)
    );
}
