//! The value glue consumed by the instruction set: literal numbers, the
//! "undefined" sentinel, and the value system's `+`.
//!
//! The full value system of the host language is an external collaborator;
//! the core only needs a number representation that the register file and
//! the environment can share.  Numbers are kept in exact decimal fixed
//! point with six fractional digits (micro-units), so `7`, `4` and `1.1`
//! are `7_000_000`, `4_000_000` and `1_100_000` micro-units.

use vstd::prelude::*;

verus! {

/// Micro-units that make up one whole unit of a number.
pub const MICROS_PER_UNIT: i64 = 1_000_000;

/// A value held in a register slot or in an environment binding.
#[derive(Clone, Copy, Debug, PartialEq, Eq, Structural)]
pub enum Value {
    /// The "undefined" sentinel every register slot starts from and is
    /// reset to when an operation consumes it.
    Undefined,
    /// A number, counted in micro-units (millionths of a unit).
    Number(i64),
}

/// Mathematical addition clamped to the range of `i64`.
pub open spec fn saturating_add_spec(a: int, b: int) -> int {
    if a + b > i64::MAX {
        i64::MAX as int
    } else if a + b < i64::MIN {
        i64::MIN as int
    } else {
        a + b
    }
}

/// The value system's `+`: two numbers add their micro-units, saturating
/// at the representable range; an undefined operand poisons the result.
pub open spec fn add_spec(a: Value, b: Value) -> Value {
    match (a, b) {
        (Value::Number(x), Value::Number(y)) => Value::Number(
            saturating_add_spec(x as int, y as int) as i64,
        ),
        _ => Value::Undefined,
    }
}

fn saturating_add(x: i64, y: i64) -> (r: i64)
    ensures
        r as int == saturating_add_spec(x as int, y as int),
{
    if x >= 0 {
        if y > i64::MAX - x {
            i64::MAX
        } else {
            x + y
        }
    } else {
        if y < i64::MIN - x {
            i64::MIN
        } else {
            x + y
        }
    }
}

impl Value {
    /// The value system's `+` on two operand values.
    pub fn add(self, other: Value) -> (r: Value)
        ensures
            r == add_spec(self, other),
    {
        match (self, other) {
            (Value::Number(x), Value::Number(y)) => Value::Number(saturating_add(x, y)),
            _ => Value::Undefined,
        }
    }

    /// Whether this value is the "undefined" sentinel.
    pub fn is_undefined(&self) -> (r: bool)
        ensures
            r == (self is Undefined),
    {
        match self {
            Value::Undefined => true,
            Value::Number(_) => false,
        }
    }
}

} // verus!
