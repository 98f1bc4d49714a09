use vstd::prelude::*;

verus! {

/// Failure of a conversion from a native integer: the value lies outside
/// the range a fixed-width ternary integer can represent.
#[derive(Debug, PartialEq, Eq, Structural)]
pub enum TryFromIntError {
    PosOverflow,
    NegOverflow,
}

/// Failure of parsing a balanced-ternary string.
///
/// `Empty` is the zero-length input; `InvalidChar` a character outside
/// `{T, 0, 1}` (or an overlong input whose leading character is neither
/// `T` nor `1`); the two overflow kinds are overlong inputs whose leading
/// character fixes the sign.
#[derive(Debug, PartialEq, Eq, Structural)]
pub enum ParseBalTernError {
    PosOverflow,
    NegOverflow,
    InvalidChar,
    Empty,
}

} // verus!
