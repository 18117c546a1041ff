//! The output proxy: the way for a host to put values into the registers.

use vstd::prelude::*;
use crate::arith::ZERO;
use crate::op_in::OpIn;
use crate::port::{DemOpIOSpec, DemOpPort, IoView, PortView, LIMIT, NEG_LIMIT};
use crate::text::{numbered_out, numbered_out_name, same_text};

verus! {

/// An operator without inputs whose outputs `out0`, `out1`, ... take their
/// values from a buffer of the host. Each tick it copies entry `i` of that
/// buffer to the register of output `i`.
///
/// The buffer belongs to the host, which hands it to each tick by reference
/// and is the only one to write it; the proxy only reads it.
pub struct OutProxy {
    pub out_regs: Vec<usize>,
}

impl OutProxy {
    /// The number of the first output port from `from` on, below `n`, that
    /// has the name `name`.
    pub open spec fn first_numbered(name: Seq<char>, from: nat, n: nat) -> Option<int>
        decreases n - from,
    {
        if from >= n {
            None
        } else if numbered_out(from) == name {
            Some(from as int)
        } else {
            OutProxy::first_numbered(name, from + 1, n)
        }
    }

    /// The register behind the output port `name`, if there is such a port.
    pub open spec fn output_named(self, name: Seq<char>) -> Option<usize> {
        match OutProxy::first_numbered(name, 0, self.out_regs@.len()) {
            Some(i) => Some(self.out_regs@[i]),
            None => None,
        }
    }

    /// The registers after the first `count` outputs have taken their values
    /// from `host`. An output for which `host` has no entry keeps its value.
    pub open spec fn copied(
        out_regs: Seq<usize>,
        host: Seq<u32>,
        regs: Seq<u32>,
        count: nat,
    ) -> Seq<u32>
        decreases count,
    {
        if count == 0 {
            regs
        } else {
            let before = OutProxy::copied(out_regs, host, regs, (count - 1) as nat);
            if count - 1 < host.len() {
                before.update(out_regs[count - 1] as int, host[count - 1])
            } else {
                before
            }
        }
    }

    /// Whether every output register has an index below `n`.
    pub open spec fn writes_below(self, n: int) -> bool {
        forall|i: int| 0 <= i < self.out_regs@.len() ==> (#[trigger] self.out_regs@[i]) < n
    }

    /// The description of the proxy at the place `index`.
    pub open spec fn describe(self, index: usize) -> IoView {
        IoView {
            index,
            inputs: seq![],
            input_values: seq![],
            input_defaults: seq![],
            audio_out_groups: seq![],
            outputs: Seq::new(
                self.out_regs@.len(),
                |i: int| PortView { name: numbered_out(i as nat), min: NEG_LIMIT, max: LIMIT },
            ),
            output_regs: self.out_regs@,
        }
    }

    /// Copying writes registers, and none is added or taken away.
    pub proof fn lemma_copied_len(
        out_regs: Seq<usize>,
        host: Seq<u32>,
        regs: Seq<u32>,
        count: nat,
    )
        requires
            count <= out_regs.len(),
            forall|i: int| 0 <= i < out_regs.len() ==> (#[trigger] out_regs[i]) < regs.len(),
        ensures
            OutProxy::copied(out_regs, host, regs, count).len() == regs.len(),
        decreases count,
    {
        if count > 0 {
            OutProxy::lemma_copied_len(out_regs, host, regs, (count - 1) as nat);
        }
    }

    /// Where the outputs are bound to the registers from `start` on, a tick
    /// puts entry `i` of the host's buffer into the register `start + i`, for
    /// every entry that an output is there for, and leaves all other
    /// registers as they are.
    pub proof fn lemma_copied_in_a_row(
        out_regs: Seq<usize>,
        host: Seq<u32>,
        regs: Seq<u32>,
        start: int,
        count: nat,
    )
        requires
            0 <= start,
            start + out_regs.len() <= regs.len(),
            forall|i: int| 0 <= i < out_regs.len() ==> (#[trigger] out_regs[i]) == start + i,
            count <= out_regs.len(),
        ensures
            OutProxy::copied(out_regs, host, regs, count) == Seq::new(
                regs.len(),
                |r: int|
                    if start <= r < start + count && r - start < host.len() {
                        host[r - start]
                    } else {
                        regs[r]
                    },
            ),
        decreases count,
    {
        if count > 0 {
            OutProxy::lemma_copied_in_a_row(out_regs, host, regs, start, (count - 1) as nat);
        }
    }

    /// A proxy with `num_outputs` outputs, none of them bound yet.
    pub fn new(num_outputs: usize) -> (p: Self)
        ensures
            p.out_regs@ == Seq::new(num_outputs as nat, |i: int| 0usize),
    {
        OutProxy { out_regs: vec![0; num_outputs] }
    }

    /// Describes the proxy at the place `index` of the operator list.
    pub fn io_spec(&self, index: usize) -> (spec: DemOpIOSpec)
        ensures
            spec@ == self.describe(index),
    {
        let mut outputs: Vec<DemOpPort> = Vec::new();
        let mut output_regs: Vec<usize> = Vec::new();
        let mut i: usize = 0;
        while i < self.out_regs.len()
            invariant
                i <= self.out_regs.len(),
                outputs.len() == i,
                output_regs.len() == i,
                forall|k: int|
                    0 <= k < i ==> (#[trigger] outputs[k])@ == (PortView {
                        name: numbered_out(k as nat),
                        min: NEG_LIMIT,
                        max: LIMIT,
                    }),
                forall|k: int| 0 <= k < i ==> output_regs[k] == self.out_regs[k],
            decreases self.out_regs.len() - i,
        {
            let name = numbered_out_name(i);
            outputs.push(DemOpPort { name, min: NEG_LIMIT, max: LIMIT });
            output_regs.push(self.out_regs[i]);
            i += 1;
        }
        let spec = DemOpIOSpec {
            inputs: vec![],
            input_values: vec![],
            input_defaults: vec![],
            outputs,
            output_regs,
            audio_out_groups: vec![],
            index,
        };
        assert(spec@.inputs =~= seq![]);
        assert(spec@.outputs =~= self.describe(index).outputs);
        assert(spec@.output_regs =~= self.out_regs@);
        spec
    }

    /// Binds output `i` to the register `start_reg + i` and clears it.
    pub fn init_regs(&mut self, start_reg: usize, regs: &mut [u32])
        requires
            start_reg + old(self).out_regs.len() <= old(regs).len(),
        ensures
            final(self).out_regs@ == Seq::new(
                old(self).out_regs@.len(),
                |i: int| (start_reg + i) as usize,
            ),
            final(regs)@ == Seq::new(
                old(regs)@.len(),
                |r: int|
                    if start_reg <= r < start_reg + old(self).out_regs@.len() {
                        ZERO
                    } else {
                        old(regs)@[r]
                    },
            ),
    {
        let n = self.out_regs.len();
        let mut i: usize = 0;
        while i < n
            invariant
                i <= n,
                n == self.out_regs.len(),
                n == old(self).out_regs.len(),
                regs.len() == old(regs).len(),
                start_reg + n <= regs.len(),
                forall|k: int| 0 <= k < i ==> self.out_regs@[k] == start_reg + k,
                forall|r: int|
                    0 <= r < regs.len() ==> regs@[r] == if start_reg <= r < start_reg + i {
                        ZERO
                    } else {
                        old(regs)@[r]
                    },
            decreases n - i,
        {
            self.out_regs[i] = i + start_reg;
            regs[i + start_reg] = ZERO;
            i += 1;
        }
    }

    /// The register behind the output port `name`: that of output `i` for
    /// the name `out` followed by the decimal numeral of `i`.
    pub fn get_output_reg(&self, name: &str) -> (reg: Option<usize>)
        ensures
            reg == self.output_named(name@),
    {
        let n = self.out_regs.len();
        let mut i: usize = 0;
        while i < n
            invariant
                i <= n,
                n == self.out_regs.len(),
                OutProxy::first_numbered(name@, 0, n as nat) == OutProxy::first_numbered(
                    name@,
                    i as nat,
                    n as nat,
                ),
            decreases n - i,
        {
            let candidate = numbered_out_name(i);
            if same_text(name, candidate.as_str()) {
                return Some(self.out_regs[i]);
            }
            i += 1;
        }
        None
    }

    /// A proxy has no input: no name is known, and nothing changes.
    pub fn set_input(&mut self, _name: &str, _to: OpIn, _as_default: bool) -> (known: bool)
        ensures
            !known,
            *final(self) == *old(self),
    {
        false
    }

    /// Copies the host's values to the output registers.
    pub fn exec(&self, _t: u32, regs: &mut [u32], host: &[u32])
        requires
            self.writes_below(old(regs).len() as int),
        ensures
            final(regs)@ == OutProxy::copied(
                self.out_regs@,
                host@,
                old(regs)@,
                self.out_regs@.len(),
            ),
    {
        let n = self.out_regs.len();
        let mut i: usize = 0;
        while i < n
            invariant
                i <= n,
                n == self.out_regs.len(),
                regs.len() == old(regs).len(),
                self.writes_below(regs.len() as int),
                regs@ == OutProxy::copied(self.out_regs@, host@, old(regs)@, i as nat),
            decreases n - i,
        {
            if i < host.len() {
                regs[self.out_regs[i]] = host[i];
            }
            i += 1;
        }
    }
}

} // verus!
