use balanced_ternary::{T5, Bal3, TryFromIntError};

#[test]
fn general() {
    // T01 * 1T -> -8 * 2 = -16 -> -27 + 9 + 3 - 1 -> T11T
    let result = T5::from_str("T01")
        .unwrap()
        .mul(T5::from_str("1T").unwrap())
        .unwrap();
    let stringform = result.display();
    println!("Result is {}", stringform)
}

#[test]
fn bal3_display() {
    let display_one = format!("{}", Bal3::One.as_char());
    let display_zero = format!("{}", Bal3::Zero.as_char());
    let display_negone = format!("{}", Bal3::NegativeOne.as_char());
    assert_eq!(display_one, "1");
    assert_eq!(display_zero, "0");
    assert_eq!(display_negone, "T");
}

#[test]
fn bal3_debug() {
    let debug_one = format!("{:?}", Bal3::One);
    let debug_zero = format!("{:?}", Bal3::Zero);
    let debug_negone = format!("{:?}", Bal3::NegativeOne);
    assert_eq!(debug_one, "One");
    assert_eq!(debug_zero, "Zero");
    assert_eq!(debug_negone, "NegativeOne");
}

#[test]
fn try_from_int_error_display() {
    let pos = TryFromIntError::PosOverflow;
    let neg = TryFromIntError::NegOverflow;
    assert_eq!(format!("{:?}", pos), "PosOverflow");
    assert_eq!(format!("{:?}", neg), "NegOverflow");
}
