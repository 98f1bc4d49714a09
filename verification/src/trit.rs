use vstd::prelude::*;

verus! {

/// A single balanced-ternary digit: one of +1, 0, -1.
#[derive(Debug, Clone, Copy, PartialEq, Eq, Structural)]
pub enum Bal3 {
    One,
    Zero,
    NegativeOne,
}

impl Bal3 {
    /// The numeric weight the digit contributes at its position.
    pub open spec fn weight(self) -> int {
        match self {
            Bal3::One => 1,
            Bal3::Zero => 0,
            Bal3::NegativeOne => -1,
        }
    }

    /// The canonical display character of the digit.
    pub open spec fn spec_char(self) -> char {
        match self {
            Bal3::One => '1',
            Bal3::Zero => '0',
            Bal3::NegativeOne => 'T',
        }
    }

    /// The canonical character of the digit: `1`, `0` or `T`.
    /// Total: every digit has exactly one character, with no error case.
    pub fn as_char(self) -> (c: char)
        ensures
            c == self.spec_char(),
    {
        match self {
            Bal3::One => '1',
            Bal3::Zero => '0',
            Bal3::NegativeOne => 'T',
        }
    }
}

} // verus!
