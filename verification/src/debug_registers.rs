//! Named values to watch while the engine runs.

use vstd::prelude::*;
use crate::arith::{arithmetic_of, deterministic, Arith};
use crate::op_in::OpIn;

verus! {

/// A list of named inputs that are resolved for display.
pub struct DebugRegisters {
    pub debug_regs: Vec<(String, OpIn)>,
}

impl DebugRegisters {
    /// Whether every input of the list can be resolved over `n` registers.
    pub open spec fn reads_below(&self, n: int) -> bool {
        forall|i: int|
            0 <= i < self.debug_regs@.len() ==> (#[trigger] self.debug_regs@[i]).1.reads_below(n)
    }

    /// An empty list.
    pub fn new() -> (list: Self)
        ensures
            list.debug_regs@.len() == 0,
    {
        DebugRegisters { debug_regs: Vec::new() }
    }

    /// Adds `op_in` to the end of the list, under the name `name`.
    pub fn add(&mut self, name: String, op_in: OpIn)
        ensures
            final(self).debug_regs@ == old(self).debug_regs@.push((name, op_in)),
    {
        self.debug_regs.push((name, op_in));
    }

    /// Resolves every input of the list over `regs`. The values come in the
    /// order of the list, to be shown beside the names.
    pub fn show<F: Fn(Arith, u32, u32) -> u32>(&self, regs: &[u32], unit: &F) -> (values: Vec<u32>)
        requires
            self.reads_below(regs.len() as int),
            deterministic(unit),
        ensures
            values@ == Seq::new(
                self.debug_regs@.len(),
                |i: int| self.debug_regs@[i].1.value(regs@, arithmetic_of(unit)),
            ),
    {
        let mut values: Vec<u32> = Vec::new();
        let mut i: usize = 0;
        while i < self.debug_regs.len()
            invariant
                i <= self.debug_regs.len(),
                self.reads_below(regs.len() as int),
                deterministic(unit),
                values@ == Seq::new(
                    i as nat,
                    |k: int| self.debug_regs@[k].1.value(regs@, arithmetic_of(unit)),
                ),
            decreases self.debug_regs.len() - i,
        {
            values.push(self.debug_regs[i].1.calc(regs, unit));
            i += 1;
        }
        values
    }
}

} // verus!
