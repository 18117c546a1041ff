//! The value resolver: what an operator input stands for, given the registers.

use vstd::prelude::*;
use crate::arith::{
    arithmetic_of, clamp, clamped, compute, deterministic, difference, product, quotient, sum,
    Arith, Arithmetic, ONE, THREE, TWO,
};

verus! {

/// A value that is resolved on demand from constants and up to two registers.
///
/// Constants are bit patterns of single-precision numbers; registers are
/// named by their index in the bank.
#[derive(Debug, PartialEq, Eq, Clone, Copy, Structural)]
pub enum OpIn {
    /// The constant itself.
    Constant(u32),
    /// The register's value.
    Reg(usize),
    /// `a * mix + b * (1 - mix)` of the registers `a` and `b`.
    RegMix2(usize, usize, u32),
    /// `v + reg`
    RegAdd(usize, u32),
    /// `v * reg`
    RegMul(usize, u32),
    /// `v * (reg + a)`, written `RegAddMul(reg, a, v)`.
    RegAddMul(usize, u32, u32),
    /// `(v * reg) + a`, written `RegMulAdd(reg, v, a)`.
    RegMulAdd(usize, u32, u32),
    /// `a * reg + b * (1 - reg)`: the register is the weight.
    RegLerp(usize, u32, u32),
    /// With `x = (reg - a) / (b - a)` held to the interval from zero to one:
    /// `x * x * (3 - 2 * x)`.
    RegSStep(usize, u32, u32),
    /// With `x = (reg - a_from) / (b_from - a_from)`:
    /// `a_to * x + b_to * (1 - x)`, written
    /// `RegMap(reg, a_from, b_from, a_to, b_to)`. At `x = 1` the result is
    /// `a_to`, at `x = 0` it is `b_to`.
    RegMap(usize, u32, u32, u32, u32),
}

impl OpIn {
    /// Whether the input reads the register `i`.
    pub open spec fn reads(self, i: int) -> bool {
        match self {
            OpIn::Constant(_) => false,
            OpIn::Reg(r) => i == r,
            OpIn::RegMix2(ra, rb, _) => i == ra || i == rb,
            OpIn::RegAdd(r, _) => i == r,
            OpIn::RegMul(r, _) => i == r,
            OpIn::RegAddMul(r, _, _) => i == r,
            OpIn::RegMulAdd(r, _, _) => i == r,
            OpIn::RegLerp(r, _, _) => i == r,
            OpIn::RegSStep(r, _, _) => i == r,
            OpIn::RegMap(r, _, _, _, _) => i == r,
        }
    }

    /// Whether every register that the input reads has an index below `n`.
    pub open spec fn reads_below(self, n: int) -> bool {
        match self {
            OpIn::Constant(_) => true,
            OpIn::Reg(i) => i < n,
            OpIn::RegMix2(ia, ib, _) => ia < n && ib < n,
            OpIn::RegAdd(i, _) => i < n,
            OpIn::RegMul(i, _) => i < n,
            OpIn::RegAddMul(i, _, _) => i < n,
            OpIn::RegMulAdd(i, _, _) => i < n,
            OpIn::RegLerp(i, _, _) => i < n,
            OpIn::RegSStep(i, _, _) => i < n,
            OpIn::RegMap(i, _, _, _, _) => i < n,
        }
    }

    /// The value of the input over the registers `regs`, in the arithmetic
    /// `arith`.
    pub open spec fn value(self, regs: Seq<u32>, arith: Arithmetic) -> u32 {
        match self {
            OpIn::Constant(v) => v,
            OpIn::Reg(i) => regs[i as int],
            OpIn::RegMix2(ia, ib, am) => sum(
                arith,
                product(arith, regs[ia as int], am),
                product(arith, regs[ib as int], difference(arith, ONE, am)),
            ),
            OpIn::RegAdd(i, v) => sum(arith, v, regs[i as int]),
            OpIn::RegMul(i, v) => product(arith, v, regs[i as int]),
            OpIn::RegAddMul(i, a, v) => product(arith, v, sum(arith, regs[i as int], a)),
            OpIn::RegMulAdd(i, v, a) => sum(arith, product(arith, v, regs[i as int]), a),
            OpIn::RegLerp(i, a, b) => sum(
                arith,
                product(arith, a, regs[i as int]),
                product(arith, b, difference(arith, ONE, regs[i as int])),
            ),
            OpIn::RegSStep(i, a, b) => {
                let x = clamped(
                    quotient(arith, difference(arith, regs[i as int], a), difference(arith, b, a)),
                );
                product(
                    arith,
                    product(arith, x, x),
                    difference(arith, THREE, product(arith, TWO, x)),
                )
            },
            OpIn::RegMap(i, a_from, b_from, a_to, b_to) => {
                let x = quotient(
                    arith,
                    difference(arith, regs[i as int], a_from),
                    difference(arith, b_from, a_from),
                );
                sum(arith, product(arith, a_to, x), product(arith, b_to, difference(arith, ONE, x)))
            },
        }
    }

    /// The value of an input depends on the registers that it reads, and on
    /// no other.
    pub proof fn lemma_value_depends_on_reads(
        self,
        a: Seq<u32>,
        b: Seq<u32>,
        arith: Arithmetic,
    )
        requires
            forall|i: int| self.reads(i) ==> a[i] == b[i],
        ensures
            self.value(a, arith) == self.value(b, arith),
    {
    }

    /// Tells whether the input can be resolved over a bank of `n` registers.
    /// This is the check to make when an input is wired; `calc` makes none.
    pub fn in_range(&self, n: usize) -> (ok: bool)
        ensures
            ok == self.reads_below(n as int),
    {
        match self {
            OpIn::Constant(_) => true,
            OpIn::Reg(i) => *i < n,
            OpIn::RegMix2(ia, ib, _) => *ia < n && *ib < n,
            OpIn::RegAdd(i, _) => *i < n,
            OpIn::RegMul(i, _) => *i < n,
            OpIn::RegAddMul(i, _, _) => *i < n,
            OpIn::RegMulAdd(i, _, _) => *i < n,
            OpIn::RegLerp(i, _, _) => *i < n,
            OpIn::RegSStep(i, _, _) => *i < n,
            OpIn::RegMap(i, _, _, _, _) => *i < n,
        }
    }

    /// Resolves the input over `regs`. The registers are read and nothing is
    /// written: the same registers give the same value.
    pub fn calc<F: Fn(Arith, u32, u32) -> u32>(&self, regs: &[u32], unit: &F) -> (r: u32)
        requires
            self.reads_below(regs.len() as int),
            deterministic(unit),
        ensures
            r == self.value(regs@, arithmetic_of(unit)),
    {
        match self {
            OpIn::Constant(v) => *v,
            OpIn::Reg(i) => regs[*i],
            OpIn::RegMix2(ia, ib, am) => {
                let left = compute(unit, Arith::Mul, regs[*ia], *am);
                let rest = compute(unit, Arith::Sub, ONE, *am);
                let right = compute(unit, Arith::Mul, regs[*ib], rest);
                compute(unit, Arith::Add, left, right)
            },
            OpIn::RegAdd(i, v) => compute(unit, Arith::Add, *v, regs[*i]),
            OpIn::RegMul(i, v) => compute(unit, Arith::Mul, *v, regs[*i]),
            OpIn::RegAddMul(i, a, v) => {
                let shifted = compute(unit, Arith::Add, regs[*i], *a);
                compute(unit, Arith::Mul, *v, shifted)
            },
            OpIn::RegMulAdd(i, v, a) => {
                let scaled = compute(unit, Arith::Mul, *v, regs[*i]);
                compute(unit, Arith::Add, scaled, *a)
            },
            OpIn::RegLerp(i, a, b) => {
                let left = compute(unit, Arith::Mul, *a, regs[*i]);
                let rest = compute(unit, Arith::Sub, ONE, regs[*i]);
                let right = compute(unit, Arith::Mul, *b, rest);
                compute(unit, Arith::Add, left, right)
            },
            OpIn::RegSStep(i, a, b) => {
                let above = compute(unit, Arith::Sub, regs[*i], *a);
                let span = compute(unit, Arith::Sub, *b, *a);
                let x = clamp(compute(unit, Arith::Div, above, span));
                let square = compute(unit, Arith::Mul, x, x);
                let twice = compute(unit, Arith::Mul, TWO, x);
                let slope = compute(unit, Arith::Sub, THREE, twice);
                compute(unit, Arith::Mul, square, slope)
            },
            OpIn::RegMap(i, a_from, b_from, a_to, b_to) => {
                let above = compute(unit, Arith::Sub, regs[*i], *a_from);
                let span = compute(unit, Arith::Sub, *b_from, *a_from);
                let x = compute(unit, Arith::Div, above, span);
                let left = compute(unit, Arith::Mul, *a_to, x);
                let rest = compute(unit, Arith::Sub, ONE, x);
                let right = compute(unit, Arith::Mul, *b_to, rest);
                compute(unit, Arith::Add, left, right)
            },
        }
    }
}

} // verus!
