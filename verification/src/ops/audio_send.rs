//! The audio send: mixes one group's buffer into another's.

use vstd::prelude::*;
use crate::arith::{
    arithmetic_of, compute, deterministic, product, square_scaled, sum, Arith, Arithmetic, HALF,
    ONE, ZERO,
};
use crate::buffer::{stereo_views, Stereo};
use crate::op_in::OpIn;
use crate::port::{DemOpIOSpec, DemOpPort, IoView, PortView};
use crate::text::same_text;

verus! {

/// An audio send with the inputs `vol_l` and `vol_r`, the gains of the two
/// channels. Each tick it resolves the two gains and keeps them; rendering
/// scales the samples of a source group by the kept gains and adds them to
/// the buffer of the group `out`.
pub struct AudioSend {
    pub volume_l: OpIn,
    pub volume_r: OpIn,
    pub volume_l_d: OpIn,
    pub volume_r_d: OpIn,
    pub cur_vol_l: u32,
    pub cur_vol_r: u32,
    /// The group whose buffer the send adds to.
    pub out: usize,
    /// Whether a sample is scaled by the square of the gain, which comes
    /// closer to how loud it is heard, or by the gain itself.
    pub squared: bool,
}

impl AudioSend {
    /// The place of the input port `name` among the inputs, if there is one.
    pub open spec fn port(name: Seq<char>) -> Option<int> {
        if name == "vol_l"@ {
            Some(0)
        } else if name == "vol_r"@ {
            Some(1)
        } else {
            None
        }
    }

    /// The send after `set_input`.
    pub open spec fn with_input(self, name: Seq<char>, to: OpIn, as_default: bool) -> AudioSend {
        if name == "vol_l"@ {
            if as_default {
                AudioSend { volume_l_d: to, ..self }
            } else {
                AudioSend { volume_l: to, ..self }
            }
        } else if name == "vol_r"@ {
            if as_default {
                AudioSend { volume_r_d: to, ..self }
            } else {
                AudioSend { volume_r: to, ..self }
            }
        } else {
            self
        }
    }

    /// Whether both live inputs can be resolved over `n` registers.
    pub open spec fn reads_below(self, n: int) -> bool {
        self.volume_l.reads_below(n) && self.volume_r.reads_below(n)
    }

    /// The send after a tick over `regs`: the gains are resolved and kept.
    pub open spec fn ticked(
        self,
        regs: Seq<u32>,
        arith: Arithmetic,
    ) -> AudioSend {
        AudioSend {
            cur_vol_l: self.volume_l.value(regs, arith),
            cur_vol_r: self.volume_r.value(regs, arith),
            ..self
        }
    }

    /// A sample scaled by a kept gain.
    pub open spec fn scaled(
        self,
        gain: u32,
        sample: u32,
        arith: Arithmetic,
    ) -> u32 {
        if self.squared {
            square_scaled(arith, gain, sample)
        } else {
            product(arith, gain, sample)
        }
    }

    /// One channel of the target after the `count` samples from `offs` on
    /// have each taken up the scaled sample of the source at the same place.
    pub open spec fn channel_mixed(
        self,
        target: Seq<u32>,
        source: Seq<u32>,
        gain: u32,
        count: int,
        offs: int,
        arith: Arithmetic,
    ) -> Seq<u32> {
        Seq::new(
            target.len(),
            |k: int|
                if offs <= k < offs + count {
                    sum(arith, target[k], self.scaled(gain, source[k], arith))
                } else {
                    target[k]
                },
        )
    }

    /// The buffers after the send has rendered the `count` samples from
    /// `offs` on: in the buffer of the group `out`, every sample of the block
    /// is the sample that was there plus the scaled sample of the group
    /// `source` at the same place. All else stays as it is.
    pub open spec fn mixed(
        self,
        bufs: Seq<Stereo>,
        count: int,
        offs: int,
        source: int,
        arith: Arithmetic,
    ) -> Seq<Stereo> {
        bufs.update(
            self.out as int,
            Stereo {
                left: self.channel_mixed(
                    bufs[self.out as int].left,
                    bufs[source].left,
                    self.cur_vol_l,
                    count,
                    offs,
                    arith,
                ),
                right: self.channel_mixed(
                    bufs[self.out as int].right,
                    bufs[source].right,
                    self.cur_vol_r,
                    count,
                    offs,
                    arith,
                ),
            },
        )
    }

    /// Whether the buffers are there for the send to render the `count`
    /// samples from `offs` on, with the group `source` as the source.
    pub open spec fn can_render(
        self,
        bufs: Seq<Stereo>,
        count: int,
        offs: int,
        source: int,
    ) -> bool {
        &&& self.out < bufs.len()
        &&& 0 <= source < bufs.len()
        &&& 0 <= offs
        &&& 0 <= count
        &&& offs + count <= bufs[self.out as int].left.len()
        &&& offs + count <= bufs[self.out as int].right.len()
        &&& offs + count <= bufs[source].left.len()
        &&& offs + count <= bufs[source].right.len()
    }

    /// The description of the send at the place `index`.
    pub open spec fn describe(self, index: usize) -> IoView {
        IoView {
            index,
            inputs: seq![
                PortView { name: "vol_l"@, min: ZERO, max: ONE },
                PortView { name: "vol_r"@, min: ZERO, max: ONE },
            ],
            input_values: seq![self.volume_l, self.volume_r],
            input_defaults: seq![self.volume_l_d, self.volume_r_d],
            audio_out_groups: seq![self.out],
            outputs: seq![],
            output_regs: seq![],
        }
    }

    /// A send with both gains at 1 and both defaults at one half, which adds
    /// to group 0 and scales by the square of the gain.
    pub fn new() -> (s: Self)
        ensures
            s == (AudioSend {
                volume_l: OpIn::Constant(ONE),
                volume_r: OpIn::Constant(ONE),
                volume_l_d: OpIn::Constant(HALF),
                volume_r_d: OpIn::Constant(HALF),
                cur_vol_l: ONE,
                cur_vol_r: ONE,
                out: 0,
                squared: true,
            }),
    {
        AudioSend {
            volume_l: OpIn::Constant(ONE),
            volume_r: OpIn::Constant(ONE),
            volume_l_d: OpIn::Constant(HALF),
            volume_r_d: OpIn::Constant(HALF),
            cur_vol_l: ONE,
            cur_vol_r: ONE,
            out: 0,
            squared: true,
        }
    }

    /// Describes the send at the place `index` of the operator list.
    pub fn io_spec(&self, index: usize) -> (spec: DemOpIOSpec)
        ensures
            spec@ == self.describe(index),
    {
        let spec = DemOpIOSpec {
            inputs: vec![DemOpPort::new("vol_l", ZERO, ONE), DemOpPort::new("vol_r", ZERO, ONE)],
            input_values: vec![self.volume_l, self.volume_r],
            input_defaults: vec![self.volume_l_d, self.volume_r_d],
            outputs: vec![],
            output_regs: vec![],
            audio_out_groups: vec![self.out],
            index,
        };
        assert(spec@.inputs =~= self.describe(index).inputs);
        assert(spec@.outputs =~= self.describe(index).outputs);
        assert(spec@.audio_out_groups =~= seq![self.out]);
        spec
    }

    /// A send has no output register: nothing is bound or written.
    pub fn init_regs(&mut self, _start_reg: usize, _regs: &mut [u32])
        ensures
            final(_regs)@ == old(_regs)@,
            *final(self) == *old(self),
    {
    }

    /// A send has no output port, whatever the name.
    pub fn get_output_reg(&self, _name: &str) -> (reg: Option<usize>)
        ensures
            reg is None,
    {
        None
    }

    /// Sets the input port `name`: its default if `as_default`, else its live
    /// value. An unknown name changes nothing.
    pub fn set_input(&mut self, name: &str, to: OpIn, as_default: bool) -> (known: bool)
        ensures
            known == (AudioSend::port(name@) is Some),
            *final(self) == old(self).with_input(name@, to, as_default),
    {
        if same_text(name, "vol_l") {
            if as_default {
                self.volume_l_d = to;
            } else {
                self.volume_l = to;
            }
            true
        } else if same_text(name, "vol_r") {
            if as_default {
                self.volume_r_d = to;
            } else {
                self.volume_r = to;
            }
            true
        } else {
            false
        }
    }

    /// Resolves the two gains and keeps them for the blocks that are rendered
    /// before the next tick.
    pub fn exec<F: Fn(Arith, u32, u32) -> u32>(&mut self, _t: u32, regs: &[u32], unit: &F)
        requires
            old(self).reads_below(regs.len() as int),
            deterministic(unit),
        ensures
            *final(self) == old(self).ticked(regs@, arithmetic_of(unit)),
    {
        self.cur_vol_l = self.volume_l.calc(regs, unit);
        self.cur_vol_r = self.volume_r.calc(regs, unit);
    }

    /// Adds the block of the group `input_idx`, scaled by the kept gains, to
    /// the block of the group `out`: the `num_samples` samples from `offs`
    /// on, in both channels. The registers are not looked at.
    pub fn render<F: Fn(Arith, u32, u32) -> u32>(
        &self,
        num_samples: usize,
        offs: usize,
        input_idx: usize,
        bufs: &mut Vec<[Vec<u32>; 2]>,
        unit: &F,
    )
        requires
            self.can_render(
                stereo_views(old(bufs)@),
                num_samples as int,
                offs as int,
                input_idx as int,
            ),
            deterministic(unit),
        ensures
            stereo_views(final(bufs)@) == self.mixed(
                stereo_views(old(bufs)@),
                num_samples as int,
                offs as int,
                input_idx as int,
                arithmetic_of(unit),
            ),
    {
        let op = if self.squared {
            Arith::SquareScale
        } else {
            Arith::Mul
        };
        let ghost given = stereo_views(bufs@);
        proof {
            let done = self.mixed(given, 0, offs as int, input_idx as int, arithmetic_of(unit));
            assert(done[self.out as int].left =~= given[self.out as int].left);
            assert(done[self.out as int].right =~= given[self.out as int].right);
            assert(done =~= given);
        }
        assert(offs + num_samples <= usize::MAX) by {
            assert(given[self.out as int].left.len() == bufs[self.out as int][0].len());
        }
        let mut i: usize = 0;
        while i < num_samples
            invariant
                i <= num_samples,
                offs + num_samples <= usize::MAX,
                self.can_render(given, num_samples as int, offs as int, input_idx as int),
                given == stereo_views(old(bufs)@),
                deterministic(unit),
                op == if self.squared {
                    Arith::SquareScale
                } else {
                    Arith::Mul
                },
                stereo_views(bufs@) == self.mixed(
                    given,
                    i as int,
                    offs as int,
                    input_idx as int,
                    arithmetic_of(unit),
                ),
            decreases num_samples - i,
        {
            let ghost before = stereo_views(bufs@);
            proof {
                let now = stereo_views(bufs@);
                assert(now.len() == given.len());
                assert(now[self.out as int].left.len() == given[self.out as int].left.len());
                assert(now[self.out as int].right.len() == given[self.out as int].right.len());
                assert(now[input_idx as int].left.len() == given[input_idx as int].left.len());
                assert(now[input_idx as int].right.len() == given[input_idx as int].right.len());
            }
            let left = compute(unit, op, self.cur_vol_l, bufs[input_idx][0][offs + i]);
            bufs[self.out][0][offs + i] = compute(
                unit,
                Arith::Add,
                bufs[self.out][0][offs + i],
                left,
            );
            let right = compute(unit, op, self.cur_vol_r, bufs[input_idx][1][offs + i]);
            bufs[self.out][1][offs + i] = compute(
                unit,
                Arith::Add,
                bufs[self.out][1][offs + i],
                right,
            );
            proof {
                let next = self.mixed(
                    given,
                    i + 1,
                    offs as int,
                    input_idx as int,
                    arithmetic_of(unit),
                );
                let now = stereo_views(bufs@);
                assert(now[self.out as int].left =~= next[self.out as int].left);
                assert(now[self.out as int].right =~= next[self.out as int].right);
                assert forall|g: int| 0 <= g < now.len() implies now[g] == next[g] by {
                    if g != self.out {
                        assert(now[g] == before[g]);
                    }
                }
                assert(now =~= next);
            }
            i += 1;
        }
    }
}

} // verus!
