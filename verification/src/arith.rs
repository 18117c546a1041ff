//! Single-precision numbers as bit patterns, their ordering, and the
//! arithmetic unit that combines them.

use vstd::prelude::*;

verus! {

/// The bit pattern of `0.0`.
pub const ZERO: u32 = 0x0000_0000;

/// The bit pattern of `0.5`.
pub const HALF: u32 = 0x3f00_0000;

/// The bit pattern of `1.0`.
pub const ONE: u32 = 0x3f80_0000;

/// The bit pattern of `2.0`.
pub const TWO: u32 = 0x4000_0000;

/// The bit pattern of `3.0`.
pub const THREE: u32 = 0x4040_0000;

/// An operation of the arithmetic unit.
///
/// The operands and the result are bit patterns of single-precision numbers.
/// `Sin` has one operand and ignores the second.
#[derive(Clone, Copy, Debug, PartialEq, Eq, Structural)]
pub enum Arith {
    /// `a + b`
    Add,
    /// `a - b`
    Sub,
    /// `a * b`
    Mul,
    /// `a / b`
    Div,
    /// The sine of `a`, taken in radians.
    Sin,
    /// `b` scaled by the square of `a`, where square and product are formed
    /// in double precision before the result is rounded to single precision.
    SquareScale,
}

/// What each operation gives on each pair of operands.
pub type Arithmetic = spec_fn(Arith, u32, u32) -> u32;

/// An arithmetic unit is usable when it accepts every operation on every pair
/// of operands, and gives one result for each.
pub open spec fn deterministic<F: Fn(Arith, u32, u32) -> u32>(unit: &F) -> bool {
    &&& forall|op: Arith, a: u32, b: u32| call_requires(unit, (op, a, b))
    &&& forall|op: Arith, a: u32, b: u32, r1: u32, r2: u32|
        call_ensures(unit, (op, a, b), r1) && call_ensures(unit, (op, a, b), r2) ==> r1 == r2
}

/// The arithmetic of `unit`: what it gives for each operation on each pair of
/// operands.
pub open spec fn arithmetic_of<F: Fn(Arith, u32, u32) -> u32>(unit: &F) -> Arithmetic {
    |op: Arith, a: u32, b: u32| choose|r: u32| call_ensures(unit, (op, a, b), r)
}

/// `a + b`
pub open spec fn sum(f: Arithmetic, a: u32, b: u32) -> u32 {
    f(Arith::Add, a, b)
}

/// `a - b`
pub open spec fn difference(f: Arithmetic, a: u32, b: u32) -> u32 {
    f(Arith::Sub, a, b)
}

/// `a * b`
pub open spec fn product(f: Arithmetic, a: u32, b: u32) -> u32 {
    f(Arith::Mul, a, b)
}

/// `a / b`
pub open spec fn quotient(f: Arithmetic, a: u32, b: u32) -> u32 {
    f(Arith::Div, a, b)
}

/// The sine of `a`.
pub open spec fn sine(f: Arithmetic, a: u32) -> u32 {
    f(Arith::Sin, a, ZERO)
}

/// `sample` scaled by the square of `gain`.
pub open spec fn square_scaled(f: Arithmetic, gain: u32, sample: u32) -> u32 {
    f(Arith::SquareScale, gain, sample)
}

/// Has `unit` carry out `op` on `a` and `b`.
pub fn compute<F: Fn(Arith, u32, u32) -> u32>(unit: &F, op: Arith, a: u32, b: u32) -> (r: u32)
    requires
        deterministic(unit),
    ensures
        r == arithmetic_of(unit)(op, a, b),
        call_ensures(unit, (op, a, b), r),
{
    unit(op, a, b)
}

/// The pattern without its sign bit.
pub open spec fn magnitude(x: u32) -> int {
    x as int % 0x8000_0000
}

/// Whether the sign bit is set.
pub open spec fn negative(x: u32) -> bool {
    x >= 0x8000_0000
}

/// Whether the pattern is not a number: all exponent bits set and a fraction
/// other than zero.
pub open spec fn is_nan(x: u32) -> bool {
    magnitude(x) > 0x7f80_0000
}

/// The place of a number in the order of the single-precision numbers. Both
/// zeros have place 0.
pub open spec fn rank(x: u32) -> int {
    if negative(x) {
        -magnitude(x)
    } else {
        magnitude(x)
    }
}

/// `a < b` as IEEE-754 orders single-precision numbers: false when either is
/// not a number, and the two zeros are equal.
pub open spec fn less(a: u32, b: u32) -> bool {
    !is_nan(a) && !is_nan(b) && rank(a) < rank(b)
}

/// `x` held to the interval from zero to one. What is not a number stays as
/// it is.
pub open spec fn clamped(x: u32) -> u32 {
    if less(x, ZERO) {
        ZERO
    } else if less(ONE, x) {
        ONE
    } else {
        x
    }
}

/// `values` with the `count` entries from `start` on set to zero.
pub open spec fn cleared(values: Seq<u32>, start: int, count: int) -> Seq<u32> {
    Seq::new(
        values.len(),
        |i: int|
            if start <= i < start + count {
                ZERO
            } else {
                values[i]
            },
    )
}

/// Compares two single-precision numbers by their bit patterns.
pub fn less_than(a: u32, b: u32) -> (r: bool)
    ensures
        r == less(a, b),
{
    let ma: u32 = a % 0x8000_0000;
    let mb: u32 = b % 0x8000_0000;
    if ma > 0x7f80_0000 || mb > 0x7f80_0000 {
        return false;
    }
    let na: bool = a >= 0x8000_0000;
    let nb: bool = b >= 0x8000_0000;
    if na {
        if nb {
            ma > mb
        } else {
            ma > 0 || mb > 0
        }
    } else {
        if nb {
            false
        } else {
            ma < mb
        }
    }
}

/// Holds a number to the interval from zero to one.
pub fn clamp(x: u32) -> (r: u32)
    ensures
        r == clamped(x),
{
    if less_than(x, ZERO) {
        ZERO
    } else if less_than(ONE, x) {
        ONE
    } else {
        x
    }
}

} // verus!
