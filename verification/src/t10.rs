//! The 10-trit width, paired with `i16`.

use vstd::prelude::*;
use crate::trit::Bal3;
use crate::errors::{TryFromIntError, ParseBalTernError};
use crate::value::{seq_val, lemma_seq_val_bounds, lemma_max_int_10};
use crate::digits;
use crate::codec;

verus! {

/// A 10-trit balanced-ternary integer, most significant digit first,
/// representing the range [`T10::MIN`, `T10::MAX`] of an `i16`.
#[derive(Debug, PartialEq, Eq)]
pub struct T10 {
    value: Vec<Bal3>,
}

impl Clone for T10 {
    /// A copy holding the same digits.
    fn clone(&self) -> (r: Self)
        ensures
            r@ == self@,
    {
        T10 { value: self.trits() }
    }
}

impl View for T10 {
    type V = Seq<Bal3>;

    closed spec fn view(&self) -> Seq<Bal3> {
        self.value@
    }
}

impl T10 {
    pub const MAX: i16 = 29524;

    pub const MIN: i16 = -29524;

    #[verifier::type_invariant]
    spec fn wf(self) -> bool {
        self.value@.len() == 10
    }

    /// The integer the ten digits denote.
    pub open spec fn as_int(self) -> int {
        seq_val(self@)
    }

    /// Range check and canonical encoding, shared by the constructor and
    /// the arithmetic operations; the argument is wide enough to hold any
    /// intermediate arithmetic result.
    fn from_wide(wide: i128) -> (r: Result<T10, TryFromIntError>)
        ensures
            wide > T10::MAX ==> (r matches Err(e) && e == TryFromIntError::PosOverflow),
            wide < T10::MIN ==> (r matches Err(e) && e == TryFromIntError::NegOverflow),
            T10::MIN <= wide <= T10::MAX ==> (r matches Ok(t) && t@.len() == 10 && t.as_int()
                == wide),
    {
        proof {
            lemma_max_int_10();
        }
        if wide > T10::MAX as i128 {
            Err(TryFromIntError::PosOverflow)
        } else if wide < T10::MIN as i128 {
            Err(TryFromIntError::NegOverflow)
        } else {
            let trits = digits::to_trits(wide as i64, 10);
            Ok(T10 { value: trits })
        }
    }

    /// Conversion from the native integer: succeeds exactly on
    /// [`T10::MIN`, `T10::MAX`], yielding the canonical ten-digit
    /// representation; fails with the fitting overflow kind otherwise.
    pub fn try_from(native: i16) -> (r: Result<T10, TryFromIntError>)
        ensures
            native > T10::MAX ==> (r matches Err(e) && e == TryFromIntError::PosOverflow),
            native < T10::MIN ==> (r matches Err(e) && e == TryFromIntError::NegOverflow),
            T10::MIN <= native <= T10::MAX ==> (r matches Ok(t) && t@.len() == 10 && t.as_int()
                == native),
    {
        Self::from_wide(native as i128)
    }

    /// Conversion to the native integer: total, no error case, since the
    /// ten digits can only denote values within [`T10::MIN`, `T10::MAX`].
    pub fn to_native(&self) -> (r: i16)
        ensures
            r == self.as_int(),
            T10::MIN <= r <= T10::MAX,
    {
        proof {
            use_type_invariant(&*self);
            lemma_seq_val_bounds(self@);
            lemma_max_int_10();
        }
        let wide = digits::to_native(&self.value);
        wide as i16
    }

    /// Parsing, as [`codec::spec_parse`] lays it out for width 10: the
    /// empty string, overlong strings and foreign characters are
    /// rejected; anything else is left-padded with zero digits.
    pub fn from_str(s: &str) -> (r: Result<T10, ParseBalTernError>)
        ensures
            match r {
                Ok(t) => codec::spec_parse(s@, 10) == Ok::<Seq<Bal3>, ParseBalTernError>(t@),
                Err(e) => codec::spec_parse(s@, 10) == Err::<Seq<Bal3>, ParseBalTernError>(e),
            },
    {
        match codec::parse_trits(s, 10) {
            Ok(v) => Ok(T10 { value: v }),
            Err(e) => Err(e),
        }
    }

    /// The canonical display string: digit characters, most significant
    /// first, leading zeros stripped; the value zero displays as "".
    pub fn display(&self) -> (r: String)
        ensures
            r@ == codec::display_chars(self@),
    {
        codec::render(&self.value)
    }

    /// The ten digits, most significant first.
    pub fn trits(&self) -> (r: Vec<Bal3>)
        ensures
            r@ == self@,
            r@.len() == 10,
    {
        proof {
            use_type_invariant(&*self);
        }
        let mut out: Vec<Bal3> = Vec::new();
        let mut i: usize = 0;
        while i < self.value.len()
            invariant
                i <= self.value@.len(),
                out@ =~= self.value@.take(i as int),
            decreases self.value@.len() - i,
        {
            out.push(self.value[i]);
            i = i + 1;
        }
        proof {
            assert(self.value@.take(self.value@.len() as int) =~= self.value@);
        }
        out
    }

    /// Addition through the native integer; fails exactly when the exact
    /// sum leaves [`T10::MIN`, `T10::MAX`].
    pub fn add(self, rhs: T10) -> (r: Result<T10, TryFromIntError>)
        ensures
            self.as_int() + rhs.as_int() > T10::MAX ==> (r matches Err(e) && e
                == TryFromIntError::PosOverflow),
            self.as_int() + rhs.as_int() < T10::MIN ==> (r matches Err(e) && e
                == TryFromIntError::NegOverflow),
            T10::MIN <= self.as_int() + rhs.as_int() <= T10::MAX ==> (r matches Ok(t)
                && t@.len() == 10 && t.as_int() == self.as_int() + rhs.as_int()),
    {
        let a = self.to_native();
        let b = rhs.to_native();
        Self::from_wide(a as i128 + b as i128)
    }

    /// Subtraction through the native integer; fails exactly when the
    /// exact difference leaves [`T10::MIN`, `T10::MAX`].
    pub fn sub(self, rhs: T10) -> (r: Result<T10, TryFromIntError>)
        ensures
            self.as_int() - rhs.as_int() > T10::MAX ==> (r matches Err(e) && e
                == TryFromIntError::PosOverflow),
            self.as_int() - rhs.as_int() < T10::MIN ==> (r matches Err(e) && e
                == TryFromIntError::NegOverflow),
            T10::MIN <= self.as_int() - rhs.as_int() <= T10::MAX ==> (r matches Ok(t)
                && t@.len() == 10 && t.as_int() == self.as_int() - rhs.as_int()),
    {
        let a = self.to_native();
        let b = rhs.to_native();
        Self::from_wide(a as i128 - b as i128)
    }

    /// Multiplication, performed in a wider integer so the exact product
    /// is range-checked; fails exactly when it leaves
    /// [`T10::MIN`, `T10::MAX`].
    pub fn mul(self, rhs: T10) -> (r: Result<T10, TryFromIntError>)
        ensures
            self.as_int() * rhs.as_int() > T10::MAX ==> (r matches Err(e) && e
                == TryFromIntError::PosOverflow),
            self.as_int() * rhs.as_int() < T10::MIN ==> (r matches Err(e) && e
                == TryFromIntError::NegOverflow),
            T10::MIN <= self.as_int() * rhs.as_int() <= T10::MAX ==> (r matches Ok(t)
                && t@.len() == 10 && t.as_int() == self.as_int() * rhs.as_int()),
    {
        let a = self.to_native();
        let b = rhs.to_native();
        proof {
            assert((a as int) * (b as int) <= 29524 * 29524 && (a as int) * (b as int) >= -(29524
                * 29524)) by (nonlinear_arith)
                requires
                    -29524 <= a <= 29524,
                    -29524 <= b <= 29524,
            ;
        }
        Self::from_wide(a as i128 * b as i128)
    }

    /// Negation, defined as zero minus the value: always succeeds, since
    /// the range is symmetric.
    pub fn neg(self) -> (r: Result<T10, TryFromIntError>)
        ensures
            r matches Ok(t) && t@.len() == 10 && t.as_int() == -self.as_int(),
    {
        let a = self.to_native();
        Self::from_wide(0 - a as i128)
    }
}

} // verus!
