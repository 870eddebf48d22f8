//! The scalar values a sample record can hold.
//!
//! A record maps keys to scalar JSON values: numbers (unsigned integers or
//! exact rationals), strings, and booleans.  Derived metrics that the outside
//! world thinks of as floating point (watts, percentages, timestamps) are
//! held as exact rationals and rendered as truncated decimals, so nothing in
//! the record depends on floating-point arithmetic.
use vstd::prelude::*;

verus! {

/// A scalar record value.
pub enum Value {
    /// A non-negative integer.
    Uint(u64),
    /// The exact rational `num / den`; well-formed only when `den > 0`.
    Ratio { num: u128, den: u64 },
    /// A string.
    Text(String),
    /// A boolean.
    Bool(bool),
}

impl Value {
    /// A value is well-formed when any rational in it has a positive
    /// denominator, so it can be rendered by division.
    pub open spec fn wf(self) -> bool {
        match self {
            Value::Ratio { num: _, den } => den > 0,
            _ => true,
        }
    }
}

} // verus!
