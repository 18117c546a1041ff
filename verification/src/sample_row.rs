//! The snapshot of the registers that is offered to a telemetry consumer.

use vstd::prelude::*;

verus! {

/// The values of all registers as they were after one tick, with the place
/// of that tick in the rotation.
pub struct SampleRow {
    pub pos: usize,
    pub values: Vec<u32>,
}

impl SampleRow {
    /// An empty snapshot at place 0.
    pub fn new() -> (row: Self)
        ensures
            row.pos == 0,
            row.values@ == Seq::<u32>::empty(),
    {
        SampleRow { pos: 0, values: Vec::new() }
    }

    /// Takes the values of `regs` as the snapshot of the place `pos`. What
    /// the snapshot held before is gone.
    pub fn read_from_regs(&mut self, regs: &[u32], pos: usize)
        ensures
            final(self).values@ == regs@,
            final(self).pos == pos,
    {
        self.values.clear();
        self.values.extend_from_slice(regs);
        self.pos = pos;
    }
}

} // verus!
