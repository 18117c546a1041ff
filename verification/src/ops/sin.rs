//! The oscillator.

use vstd::prelude::*;
use crate::arith::{
    arithmetic_of, compute, deterministic, product, sine, sum, Arith, Arithmetic, ONE, ZERO,
};
use crate::op_in::OpIn;
use crate::port::{DemOpIOSpec, DemOpPort, IoView, PortView, LIMIT, NEG_LIMIT};
use crate::text::same_text;

verus! {

/// The bit pattern of twice pi.
pub const TWO_PI: u32 = 0x40c9_0fdb;

/// The bit pattern of twice pi, negated.
pub const NEG_TWO_PI: u32 = 0xc0c9_0fdb;

/// The bit pattern of `11025.0`.
pub const TOP_FREQUENCY: u32 = 0x462c_4400;

/// The bit pattern of `9.1`, the frequency of a new oscillator.
pub const START_FREQUENCY: u32 = 0x4111_999a;

/// An oscillator with the inputs `amp`, `phase`, `vert` and `freq`, in this
/// order, and the one output `out`. Each tick it writes
/// `amp * (sin(freq * t + phase) + vert)` to its output register.
pub struct Sin {
    pub values: [OpIn; 4],
    pub defaults: [OpIn; 4],
    pub out: usize,
}

impl Sin {
    /// The place of the input port `name` among the inputs, if there is one.
    pub open spec fn port(name: Seq<char>) -> Option<int> {
        if name == "amp"@ {
            Some(0)
        } else if name == "phase"@ {
            Some(1)
        } else if name == "vert"@ {
            Some(2)
        } else if name == "freq"@ {
            Some(3)
        } else {
            None
        }
    }

    /// The oscillator after `set_input`.
    pub open spec fn with_input(self, name: Seq<char>, to: OpIn, as_default: bool) -> Sin {
        match Sin::port(name) {
            Some(k) => if as_default {
                Sin { defaults: vstd::array::spec_array_update(self.defaults, k, to), ..self }
            } else {
                Sin { values: vstd::array::spec_array_update(self.values, k, to), ..self }
            },
            None => self,
        }
    }

    /// What the oscillator puts out at the time `t`.
    pub open spec fn wave(
        self,
        t: u32,
        regs: Seq<u32>,
        arith: Arithmetic,
    ) -> u32 {
        let a = self.values[0].value(regs, arith);
        let p = self.values[1].value(regs, arith);
        let v = self.values[2].value(regs, arith);
        let f = self.values[3].value(regs, arith);
        product(arith, a, sum(arith, sine(arith, sum(arith, product(arith, f, t), p)), v))
    }

    /// Whether every live input can be resolved over `n` registers.
    pub open spec fn reads_below(self, n: int) -> bool {
        forall|k: int| 0 <= k < 4 ==> (#[trigger] self.values[k]).reads_below(n)
    }

    /// The description of the oscillator at the place `index`.
    pub open spec fn describe(self, index: usize) -> IoView {
        IoView {
            index,
            inputs: seq![
                PortView { name: "amp"@, min: ZERO, max: LIMIT },
                PortView { name: "phase"@, min: NEG_TWO_PI, max: TWO_PI },
                PortView { name: "vert"@, min: NEG_LIMIT, max: LIMIT },
                PortView { name: "freq"@, min: ZERO, max: TOP_FREQUENCY },
            ],
            input_values: self.values@,
            input_defaults: self.defaults@,
            audio_out_groups: seq![],
            outputs: seq![PortView { name: "out"@, min: NEG_LIMIT, max: LIMIT }],
            output_regs: seq![self.out],
        }
    }

    /// An oscillator with amplitude 1, no phase offset, no vertical offset
    /// and the frequency 9.1. Its defaults are the same, but for the
    /// frequency 1.
    pub fn new() -> (s: Self)
        ensures
            s.values@ == seq![
                OpIn::Constant(ONE),
                OpIn::Constant(ZERO),
                OpIn::Constant(ZERO),
                OpIn::Constant(START_FREQUENCY),
            ],
            s.defaults@ == seq![
                OpIn::Constant(ONE),
                OpIn::Constant(ZERO),
                OpIn::Constant(ZERO),
                OpIn::Constant(ONE),
            ],
            s.out == 0,
    {
        let defs = [
            OpIn::Constant(ONE),
            OpIn::Constant(ZERO),
            OpIn::Constant(ZERO),
            OpIn::Constant(START_FREQUENCY),
        ];
        Sin {
            values: defs,
            out: 0,
            defaults: [
                OpIn::Constant(ONE),
                OpIn::Constant(ZERO),
                OpIn::Constant(ZERO),
                OpIn::Constant(ONE),
            ],
        }
    }

    /// Describes the oscillator at the place `index` of the operator list.
    pub fn io_spec(&self, index: usize) -> (spec: DemOpIOSpec)
        ensures
            spec@ == self.describe(index),
    {
        let spec = DemOpIOSpec {
            inputs: vec![
                DemOpPort::new("amp", ZERO, LIMIT),
                DemOpPort::new("phase", NEG_TWO_PI, TWO_PI),
                DemOpPort::new("vert", NEG_LIMIT, LIMIT),
                DemOpPort::new("freq", ZERO, TOP_FREQUENCY),
            ],
            input_values: vec![self.values[0], self.values[1], self.values[2], self.values[3]],
            input_defaults: vec![
                self.defaults[0],
                self.defaults[1],
                self.defaults[2],
                self.defaults[3],
            ],
            outputs: vec![DemOpPort::new("out", NEG_LIMIT, LIMIT)],
            output_regs: vec![self.out],
            audio_out_groups: vec![],
            index,
        };
        assert(spec@.inputs =~= self.describe(index).inputs);
        assert(spec@.outputs =~= self.describe(index).outputs);
        assert(spec@.input_values =~= self.values@);
        assert(spec@.input_defaults =~= self.defaults@);
        assert(spec@.output_regs =~= seq![self.out]);
        spec
    }

    /// Binds the output to the register `start_reg` and clears it.
    pub fn init_regs(&mut self, start_reg: usize, regs: &mut [u32])
        requires
            start_reg < old(regs).len(),
        ensures
            final(regs)@ == old(regs)@.update(start_reg as int, ZERO),
            *final(self) == (Sin { out: start_reg, ..*old(self) }),
    {
        regs[start_reg] = ZERO;
        self.out = start_reg;
    }

    /// The register behind the output port `name`; the one port is `out`.
    pub fn get_output_reg(&self, name: &str) -> (reg: Option<usize>)
        ensures
            reg == if name@ == "out"@ {
                Some(self.out)
            } else {
                None
            },
    {
        if same_text(name, "out") {
            Some(self.out)
        } else {
            None
        }
    }

    /// Sets the input port `name`: its default if `as_default`, else its live
    /// value. An unknown name changes nothing.
    pub fn set_input(&mut self, name: &str, to: OpIn, as_default: bool) -> (known: bool)
        ensures
            known == (Sin::port(name@) is Some),
            *final(self) == old(self).with_input(name@, to, as_default),
    {
        let k: usize = if same_text(name, "amp") {
            0
        } else if same_text(name, "phase") {
            1
        } else if same_text(name, "vert") {
            2
        } else if same_text(name, "freq") {
            3
        } else {
            return false;
        };
        if as_default {
            self.defaults[k] = to;
        } else {
            self.values[k] = to;
        }
        true
    }

    /// Resolves the inputs and writes the output register.
    pub fn exec<F: Fn(Arith, u32, u32) -> u32>(&mut self, t: u32, regs: &mut [u32], unit: &F)
        requires
            old(self).out < old(regs).len(),
            old(self).reads_below(old(regs).len() as int),
            deterministic(unit),
        ensures
            final(regs)@ == old(regs)@.update(
                old(self).out as int,
                old(self).wave(t, old(regs)@, arithmetic_of(unit)),
            ),
            *final(self) == *old(self),
    {
        let a = self.values[0].calc(regs, unit);
        let p = self.values[1].calc(regs, unit);
        let v = self.values[2].calc(regs, unit);
        let f = self.values[3].calc(regs, unit);
        let angle = compute(unit, Arith::Add, compute(unit, Arith::Mul, f, t), p);
        let lifted = compute(unit, Arith::Add, compute(unit, Arith::Sin, angle, ZERO), v);
        regs[self.out] = compute(unit, Arith::Mul, a, lifted);
    }
}

} // verus!
