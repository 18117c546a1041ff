//! What every operator can do, whatever its kind.

use vstd::prelude::*;
use crate::arith::{arithmetic_of, cleared, deterministic, Arith, Arithmetic};
use crate::buffer::{same_shape, stereo_views, Stereo};
use crate::op_in::OpIn;
use crate::ops::{AudioSend, OutProxy, Sin};
use crate::port::{entries, DemOpIOSpec, IoView};

verus! {

/// An operator of one of the kinds that the engine knows.
///
/// An operator is made on its own, then handed to the simulator once, which
/// binds its outputs to registers. From then on its inputs are set by name,
/// it is ticked once per control tick, and, if it takes part in rendering,
/// asked to render once per block.
pub enum DemOp {
    Sin(Sin),
    AudioSend(AudioSend),
    OutProxy(OutProxy),
}

impl DemOp {
    /// The description of the operator at the place `index`.
    pub open spec fn describe(self, index: usize) -> IoView {
        match self {
            DemOp::Sin(s) => s.describe(index),
            DemOp::AudioSend(s) => s.describe(index),
            DemOp::OutProxy(p) => p.describe(index),
        }
    }

    /// The live values of the inputs, in port order.
    pub open spec fn input_values(self) -> Seq<OpIn> {
        self.describe(0).input_values
    }

    /// The default values of the inputs, in port order.
    pub open spec fn input_defaults(self) -> Seq<OpIn> {
        self.describe(0).input_defaults
    }

    /// The registers of the outputs, in port order.
    pub open spec fn output_regs(self) -> Seq<usize> {
        self.describe(0).output_regs
    }

    /// The groups whose buffers the operator renders into.
    pub open spec fn audio_out_groups(self) -> Seq<usize> {
        self.describe(0).audio_out_groups
    }

    /// The place of the input port `name` among the inputs, if there is one.
    pub open spec fn port(self, name: Seq<char>) -> Option<int> {
        match self {
            DemOp::Sin(_) => Sin::port(name),
            DemOp::AudioSend(_) => AudioSend::port(name),
            DemOp::OutProxy(_) => None,
        }
    }

    /// The operator after `set_input`.
    pub open spec fn with_input(self, name: Seq<char>, to: OpIn, as_default: bool) -> DemOp {
        match self {
            DemOp::Sin(s) => DemOp::Sin(s.with_input(name, to, as_default)),
            DemOp::AudioSend(s) => DemOp::AudioSend(s.with_input(name, to, as_default)),
            DemOp::OutProxy(_) => self,
        }
    }

    /// Whether every live input can be resolved over `n` registers.
    pub open spec fn reads_below(self, n: int) -> bool {
        match self {
            DemOp::Sin(s) => s.reads_below(n),
            DemOp::AudioSend(s) => s.reads_below(n),
            DemOp::OutProxy(_) => true,
        }
    }

    /// Whether a live input of the operator reads the register `i`.
    pub open spec fn reads(self, i: int) -> bool {
        exists|k: int|
            0 <= k < self.input_values().len() && (#[trigger] self.input_values()[k]).reads(i)
    }

    /// Whether the register `i` is bound to an output of the operator.
    pub open spec fn writes(self, i: int) -> bool {
        exists|j: int| 0 <= j < self.output_regs().len() && (#[trigger] self.output_regs()[j]) == i
    }

    /// Whether every output register has an index below `n`.
    pub open spec fn writes_below(self, n: int) -> bool {
        match self {
            DemOp::Sin(s) => s.out < n,
            DemOp::AudioSend(_) => true,
            DemOp::OutProxy(p) => p.writes_below(n),
        }
    }

    /// Whether every group that the operator renders into has an index below
    /// `n`.
    pub open spec fn sends_below(self, n: int) -> bool {
        match self {
            DemOp::AudioSend(s) => s.out < n,
            _ => true,
        }
    }

    /// Whether `self` is `before` with its outputs bound to the registers
    /// from `start` on, in port order, and nothing else changed.
    pub open spec fn allocated_from(self, before: DemOp, start: usize) -> bool {
        match (before, self) {
            (DemOp::Sin(b), DemOp::Sin(a)) => a == (Sin { out: start, ..b }),
            (DemOp::AudioSend(b), DemOp::AudioSend(a)) => a == b,
            (DemOp::OutProxy(b), DemOp::OutProxy(a)) => a.out_regs@ == Seq::new(
                b.out_regs@.len(),
                |i: int| (start + i) as usize,
            ),
            _ => false,
        }
    }

    /// The register behind the output port `name`, if there is such a port.
    pub open spec fn output_named(self, name: Seq<char>) -> Option<usize> {
        match self {
            DemOp::Sin(s) => if name == "out"@ {
                Some(s.out)
            } else {
                None
            },
            DemOp::AudioSend(_) => None,
            DemOp::OutProxy(p) => p.output_named(name),
        }
    }

    /// The operator after a tick over `regs`.
    pub open spec fn ticked(
        self,
        regs: Seq<u32>,
        arith: Arithmetic,
    ) -> DemOp {
        match self {
            DemOp::Sin(_) => self,
            DemOp::AudioSend(s) => DemOp::AudioSend(s.ticked(regs, arith)),
            DemOp::OutProxy(_) => self,
        }
    }

    /// The registers after the operator's tick at the time `t`, with the
    /// host's values `host`.
    pub open spec fn ticked_regs(
        self,
        t: u32,
        regs: Seq<u32>,
        host: Seq<u32>,
        arith: Arithmetic,
    ) -> Seq<u32> {
        match self {
            DemOp::Sin(s) => regs.update(s.out as int, s.wave(t, regs, arith)),
            DemOp::AudioSend(_) => regs,
            DemOp::OutProxy(p) => OutProxy::copied(p.out_regs@, host, regs, p.out_regs@.len()),
        }
    }

    /// Whether the operator takes part in rendering.
    pub open spec fn renders(self) -> bool {
        self is AudioSend
    }

    /// Whether the buffers are there for the operator to render `count`
    /// samples of the group `source` at `offs`.
    pub open spec fn can_render(
        self,
        bufs: Seq<Stereo>,
        count: int,
        offs: int,
        source: int,
    ) -> bool {
        match self {
            DemOp::AudioSend(s) => s.can_render(bufs, count, offs, source),
            _ => true,
        }
    }

    /// The buffers after the operator has rendered `count` samples of the
    /// group `source` at `offs`.
    pub open spec fn rendered(
        self,
        bufs: Seq<Stereo>,
        count: nat,
        offs: int,
        source: int,
        arith: Arithmetic,
    ) -> Seq<Stereo> {
        match self {
            DemOp::AudioSend(s) => s.mixed(bufs, count as int, offs, source, arith),
            _ => bufs,
        }
    }

    /// The name of each input port with its live value, in port order.
    pub open spec fn exported(self) -> Seq<(Seq<char>, OpIn)> {
        self.describe(0).named_values()
    }

    /// The operator after each entry of `inputs`, in order, has been set as a
    /// live value. Entries with a name that the operator does not know are
    /// passed over.
    pub open spec fn imported(self, inputs: Seq<(Seq<char>, OpIn)>) -> DemOp
        decreases inputs.len(),
    {
        if inputs.len() == 0 {
            self
        } else {
            self.imported(inputs.drop_last()).with_input(inputs.last().0, inputs.last().1, false)
        }
    }

    /// Every input port has a live value and a default, and every output
    /// port a register.
    pub proof fn lemma_shape(self)
        ensures
            self.describe(0).inputs.len() == self.input_values().len(),
            self.describe(0).inputs.len() == self.input_defaults().len(),
            self.describe(0).outputs.len() == self.output_regs().len(),
    {
    }

    /// Binding the outputs changes the output registers and nothing else.
    pub proof fn lemma_allocated(self, before: DemOp, start: usize)
        requires
            self.allocated_from(before, start),
            start + before.output_regs().len() <= usize::MAX,
        ensures
            self.output_regs() == Seq::new(
                before.output_regs().len(),
                |j: int| (start + j) as usize,
            ),
            self.input_values() == before.input_values(),
            self.input_defaults() == before.input_defaults(),
            self.audio_out_groups() == before.audio_out_groups(),
            self.renders() == before.renders(),
            self.describe(0).inputs == before.describe(0).inputs,
            self.describe(0).outputs == before.describe(0).outputs,
            forall|n: int| self.reads_below(n) == before.reads_below(n),
            forall|n: int| self.sends_below(n) == before.sends_below(n),
            forall|name: Seq<char>| self.port(name) == before.port(name),
    {
    }

    /// Setting an input changes the inputs and nothing else; a live value
    /// that can be resolved leaves all live inputs so.
    pub proof fn lemma_with_input_keeps(self, name: Seq<char>, to: OpIn, as_default: bool)
        ensures
            self.with_input(name, to, as_default).output_regs() == self.output_regs(),
            self.with_input(name, to, as_default).audio_out_groups() == self.audio_out_groups(),
            self.with_input(name, to, as_default).renders() == self.renders(),
            !as_default ==> self.with_input(name, to, as_default).input_defaults()
                == self.input_defaults(),
            self.with_input(name, to, as_default).describe(0).inputs == self.describe(0).inputs,
            self.with_input(name, to, as_default).describe(0).outputs == self.describe(0).outputs,
            self.port(name) is None ==> self.with_input(name, to, as_default) == self,
            forall|n: int|
                self.with_input(name, to, as_default).sends_below(n) == self.sends_below(n),
            forall|n: int|
                self.with_input(name, to, as_default).writes_below(n) == self.writes_below(n),
            forall|other: Seq<char>|
                self.with_input(name, to, as_default).port(other) == self.port(other),
            forall|n: int|
                self.reads_below(n) && (as_default || to.reads_below(n)) ==> self.with_input(
                    name,
                    to,
                    as_default,
                ).reads_below(n),
    {
    }

    /// Setting live values changes the inputs and nothing else; values that
    /// can be resolved leave all live inputs so.
    pub proof fn lemma_imported_keeps(self, inputs: Seq<(Seq<char>, OpIn)>, n: int)
        requires
            self.reads_below(n),
            forall|k: int| 0 <= k < inputs.len() ==> (#[trigger] inputs[k]).1.reads_below(n),
        ensures
            self.imported(inputs).reads_below(n),
            self.imported(inputs).output_regs() == self.output_regs(),
            self.imported(inputs).renders() == self.renders(),
            self.imported(inputs).input_defaults() == self.input_defaults(),
            forall|m: int| self.imported(inputs).sends_below(m) == self.sends_below(m),
            forall|name: Seq<char>| self.imported(inputs).port(name) == self.port(name),
        decreases inputs.len(),
    {
        if inputs.len() > 0 {
            assert forall|k: int| 0 <= k < inputs.drop_last().len() implies (
            #[trigger] inputs.drop_last()[k]).1.reads_below(n) by {
                assert(inputs.drop_last()[k] == inputs[k]);
            }
            self.lemma_imported_keeps(inputs.drop_last(), n);
            assert(inputs.last() == inputs[inputs.len() - 1]);
            self.imported(inputs.drop_last()).lemma_with_input_keeps(
                inputs.last().0,
                inputs.last().1,
                false,
            );
        }
    }

    /// An input that can be resolved over `n` registers can be resolved over
    /// more.
    pub proof fn lemma_reads_below_grows(self, n: int, m: int)
        requires
            self.reads_below(n),
            n <= m,
        ensures
            self.reads_below(m),
    {
    }

    /// A tick changes neither the description of an operator nor its part in
    /// rendering.
    pub proof fn lemma_ticked_keeps(self, regs: Seq<u32>, arith: Arithmetic)
        ensures
            forall|index: usize| self.ticked(regs, arith).describe(index) == self.describe(index),
            self.ticked(regs, arith).renders() == self.renders(),
            forall|n: int| self.ticked(regs, arith).reads_below(n) == self.reads_below(n),
            forall|n: int| self.ticked(regs, arith).writes_below(n) == self.writes_below(n),
            forall|n: int| self.ticked(regs, arith).sends_below(n) == self.sends_below(n),
            forall|name: Seq<char>| self.ticked(regs, arith).port(name) == self.port(name),
    {
    }

    /// A tick writes registers, and none is added or taken away.
    pub proof fn lemma_ticked_regs_len(
        self,
        t: u32,
        regs: Seq<u32>,
        host: Seq<u32>,
        arith: Arithmetic,
    )
        requires
            self.writes_below(regs.len() as int),
        ensures
            self.ticked_regs(t, regs, host, arith).len() == regs.len(),
    {
        if let DemOp::OutProxy(p) = self {
            OutProxy::lemma_copied_len(p.out_regs@, host, regs, p.out_regs@.len());
        }
    }

    /// Rendering writes samples, and none is added or taken away.
    pub proof fn lemma_rendered_shape(
        self,
        bufs: Seq<Stereo>,
        count: nat,
        offs: int,
        source: int,
        arith: Arithmetic,
    )
        requires
            self.can_render(bufs, count as int, offs, source),
        ensures
            same_shape(self.rendered(bufs, count, offs, source, arith), bufs),
    {
    }

    /// Describes the operator: its input ports with their ranges, live
    /// values and defaults, its output ports with their registers, the groups
    /// it renders into, and `index`, its place in the operator list.
    pub fn io_spec(&self, index: usize) -> (spec: DemOpIOSpec)
        ensures
            spec@ == self.describe(index),
    {
        match self {
            DemOp::Sin(s) => s.io_spec(index),
            DemOp::AudioSend(s) => s.io_spec(index),
            DemOp::OutProxy(p) => p.io_spec(index),
        }
    }

    /// Binds the outputs to the registers from `start_reg` on, one register
    /// per output in port order, and sets each of them to zero.
    pub fn init_regs(&mut self, start_reg: usize, regs: &mut [u32])
        requires
            start_reg + old(self).output_regs().len() <= old(regs).len(),
        ensures
            final(self).allocated_from(*old(self), start_reg),
            final(regs)@ == cleared(
                old(regs)@,
                start_reg as int,
                old(self).output_regs().len() as int,
            ),
    {
        match self {
            DemOp::Sin(s) => {
                s.init_regs(start_reg, regs);
            },
            DemOp::AudioSend(s) => {
                s.init_regs(start_reg, regs);
            },
            DemOp::OutProxy(p) => {
                p.init_regs(start_reg, regs);
            },
        }
    }

    /// The register behind the output port `name`.
    pub fn get_output_reg(&self, name: &str) -> (reg: Option<usize>)
        ensures
            reg == self.output_named(name@),
    {
        match self {
            DemOp::Sin(s) => s.get_output_reg(name),
            DemOp::AudioSend(s) => s.get_output_reg(name),
            DemOp::OutProxy(p) => p.get_output_reg(name),
        }
    }

    /// Sets the input port `name` to `to`: the default if `as_default`, else
    /// the live value. The answer tells whether the operator has such a
    /// port; if it has none, nothing changes.
    pub fn set_input(&mut self, name: &str, to: OpIn, as_default: bool) -> (known: bool)
        ensures
            known == (old(self).port(name@) is Some),
            *final(self) == old(self).with_input(name@, to, as_default),
            !known ==> *final(self) == *old(self),
            known && as_default ==> final(self).input_values() == old(self).input_values(),
            known && !as_default ==> final(self).input_defaults() == old(self).input_defaults()
                && final(self).input_values() == old(self).input_values().update(
                old(self).port(name@).unwrap(),
                to,
            ),
    {
        match self {
            DemOp::Sin(s) => s.set_input(name, to, as_default),
            DemOp::AudioSend(s) => s.set_input(name, to, as_default),
            DemOp::OutProxy(p) => p.set_input(name, to, as_default),
        }
    }

    /// One tick: resolves the live inputs over `regs` and writes the output
    /// registers. `host` holds the values that the host puts in.
    pub fn exec<F: Fn(Arith, u32, u32) -> u32>(
        &mut self,
        t: u32,
        regs: &mut [u32],
        host: &[u32],
        unit: &F,
    )
        requires
            old(self).reads_below(old(regs).len() as int),
            old(self).writes_below(old(regs).len() as int),
            deterministic(unit),
        ensures
            *final(self) == old(self).ticked(old(regs)@, arithmetic_of(unit)),
            final(regs)@ == old(self).ticked_regs(t, old(regs)@, host@, arithmetic_of(unit)),
    {
        match self {
            DemOp::Sin(s) => s.exec(t, regs, unit),
            DemOp::AudioSend(s) => s.exec(t, regs, unit),
            DemOp::OutProxy(p) => p.exec(t, regs, host),
        }
    }

    /// Tells whether every live input can be resolved over `n` registers.
    pub fn inputs_in_range(&self, n: usize) -> (ok: bool)
        ensures
            ok == self.reads_below(n as int),
    {
        match self {
            DemOp::Sin(s) => s.values[0].in_range(n) && s.values[1].in_range(n)
                && s.values[2].in_range(n) && s.values[3].in_range(n),
            DemOp::AudioSend(s) => s.volume_l.in_range(n) && s.volume_r.in_range(n),
            DemOp::OutProxy(_) => true,
        }
    }

    /// Whether the operator takes part in rendering.
    pub fn does_render(&self) -> (yes: bool)
        ensures
            yes == self.renders(),
    {
        match self {
            DemOp::AudioSend(_) => true,
            _ => false,
        }
    }

    /// Renders `num_samples` samples: what the operator makes of the buffer
    /// of the group `input_idx` is added to the buffers it renders into. An
    /// operator that takes no part in rendering leaves the buffers as they
    /// are.
    pub fn render<F: Fn(Arith, u32, u32) -> u32>(
        &self,
        num_samples: usize,
        offs: usize,
        input_idx: usize,
        bufs: &mut Vec<[Vec<u32>; 2]>,
        unit: &F,
    )
        requires
            self.can_render(
                stereo_views(old(bufs)@),
                num_samples as int,
                offs as int,
                input_idx as int,
            ),
            deterministic(unit),
        ensures
            stereo_views(final(bufs)@) == self.rendered(
                stereo_views(old(bufs)@),
                num_samples as nat,
                offs as int,
                input_idx as int,
                arithmetic_of(unit),
            ),
    {
        match self {
            DemOp::AudioSend(s) => s.render(num_samples, offs, input_idx, bufs, unit),
            _ => {},
        }
    }

    /// The number of input ports.
    pub fn input_count(&self) -> (n: usize)
        ensures
            n == self.input_values().len(),
    {
        proof {
            self.lemma_shape();
        }
        self.io_spec(0).inputs.len()
    }

    /// The number of output ports, which is the number of registers that the
    /// operator needs.
    pub fn output_count(&self) -> (n: usize)
        ensures
            n == self.output_regs().len(),
    {
        proof {
            self.lemma_shape();
        }
        self.io_spec(0).outputs.len()
    }

    /// Sets each named value of `inputs` as a live value, in order.
    pub fn deserialize_inputs(&mut self, inputs: &Vec<(String, OpIn)>)
        ensures
            *final(self) == old(self).imported(entries(inputs@)),
    {
        let mut i: usize = 0;
        while i < inputs.len()
            invariant
                i <= inputs.len(),
                *self == old(self).imported(entries(inputs@.take(i as int))),
            decreases inputs.len() - i,
        {
            let ghost done = entries(inputs@.take(i as int));
            self.set_input(inputs[i].0.as_str(), inputs[i].1, false);
            assert(entries(inputs@.take(i + 1)).drop_last() =~= done);
            i += 1;
        }
        assert(inputs@.take(inputs.len() as int) =~= inputs@);
    }

    /// The name of each input port with its live value, in port order.
    pub fn serialize_inputs(&self) -> (vals: Vec<(String, OpIn)>)
        ensures
            entries(vals@) == self.exported(),
    {
        let spec = self.io_spec(0);
        let mut vals: Vec<(String, OpIn)> = Vec::new();
        let mut i: usize = 0;
        while i < spec.inputs.len() && i < spec.input_values.len()
            invariant
                i <= spec.inputs.len(),
                i <= spec.input_values.len(),
                vals.len() == i,
                forall|k: int|
                    0 <= k < i ==> (#[trigger] vals[k]).0@ == spec.inputs[k].name@ && vals[k].1
                        == spec.input_values[k],
            decreases spec.inputs.len() - i,
        {
            vals.push((spec.inputs[i].name.clone(), spec.input_values[i]));
            i += 1;
        }
        vals
    }
}

} // verus!
