//! Fixed-width balanced ternary integers.
//!
//! A balanced-ternary integer is written with digits ("trits") drawn from
//! {+1, 0, -1} instead of {0, 1, 2}.  This crate offers four fixed widths
//! (5, 10, 20 and 40 trits), each paired with the native signed integer
//! type whose range covers it, together with a canonical textual codec
//! and arithmetic carried out through the native representation.

pub mod trit;
pub mod errors;
pub mod value;
pub mod digits;
pub mod codec;
pub mod t5;
pub mod t10;
pub mod t20;
pub mod t40;

pub use trit::Bal3;
pub use errors::{TryFromIntError, ParseBalTernError};
pub use t5::T5;
pub use t10::T10;
pub use t20::T20;
pub use t40::T40;
pub use digits::find_first_non_zero;
