//! The simulator: it owns the registers, the operators and the groups, and
//! drives the ticks and the rendering.

use vstd::prelude::*;
use crate::arith::{arithmetic_of, cleared, deterministic, Arith, Arithmetic, ZERO};
use crate::buffer::{all_hold, same_shape, silence, stereo, stereo_views, zeroed, Stereo};
use crate::dem_op::DemOp;
use crate::group::{first_named, lemma_members_in_list, members, OpGroup, OpInfo};
use crate::op_in::OpIn;
use crate::port::{entries, lemma_resolvable, resolvable, resolvable_entries, DemOpIOSpec};
use crate::sample_row::SampleRow;
use crate::text::same_text;

verus! {

/// The number of ticks after which the place of the snapshot starts again at
/// zero.
pub const SCOPE_SAMPLES: usize = 128;

/// The number of outputs of the first `upto` operators together.
pub open spec fn total_outputs(ops: Seq<DemOp>, upto: nat) -> nat
    decreases upto,
{
    if upto == 0 {
        0
    } else {
        total_outputs(ops, (upto - 1) as nat) + ops[upto - 1].output_regs().len()
    }
}

/// Whether the registers are handed out without gaps: output `j` of the
/// operator `m` has the register whose index is the number of outputs of all
/// operators before `m`, plus `j`.
pub open spec fn allocated(ops: Seq<DemOp>) -> bool {
    forall|m: int, j: int|
        0 <= m < ops.len() && 0 <= j < ops[m].output_regs().len() ==> (
        #[trigger] ops[m].output_regs()[j]) == total_outputs(ops, m as nat) + j
}

/// The count of outputs does not fall as operators are added to it.
pub proof fn lemma_total_outputs_rises(ops: Seq<DemOp>, a: nat, b: nat)
    requires
        a <= b,
    ensures
        total_outputs(ops, a) <= total_outputs(ops, b),
    decreases b,
{
    if a < b {
        lemma_total_outputs_rises(ops, a, (b - 1) as nat);
    }
}

/// The count of outputs of the first `upto` operators depends on these
/// operators alone.
pub proof fn lemma_total_outputs_of_prefix(ops: Seq<DemOp>, other: Seq<DemOp>, upto: nat)
    requires
        upto <= ops.len(),
        upto <= other.len(),
        forall|k: int|
            0 <= k < upto ==> (#[trigger] ops[k]).output_regs() == other[k].output_regs(),
    ensures
        total_outputs(ops, upto) == total_outputs(other, upto),
    decreases upto,
{
    if upto > 0 {
        lemma_total_outputs_of_prefix(ops, other, (upto - 1) as nat);
    }
}

/// The operators and the registers after the first `count` operators have
/// been ticked at the time `t`, one after the other.
pub open spec fn ticked_through(
    ops: Seq<DemOp>,
    regs: Seq<u32>,
    count: nat,
    t: u32,
    host: Seq<u32>,
    arith: Arithmetic,
) -> (Seq<DemOp>, Seq<u32>)
    decreases count,
{
    if count == 0 {
        (ops, regs)
    } else {
        let before = ticked_through(ops, regs, (count - 1) as nat, t, host, arith);
        let op = before.0[count - 1];
        (
            before.0.update(count - 1, op.ticked(before.1, arith)),
            op.ticked_regs(t, before.1, host, arith),
        )
    }
}

/// The buffers after the first `upto` members of the group `g` have rendered
/// `count` samples at `offs`, one after the other.
pub open spec fn group_rendered(
    ops: Seq<DemOp>,
    group: Seq<usize>,
    upto: nat,
    bufs: Seq<Stereo>,
    count: nat,
    offs: int,
    g: int,
    arith: Arithmetic,
) -> Seq<Stereo>
    decreases upto,
{
    if upto == 0 {
        bufs
    } else {
        let before = group_rendered(ops, group, (upto - 1) as nat, bufs, count, offs, g, arith);
        ops[group[upto - 1] as int].rendered(before, count, offs, g, arith)
    }
}

/// The buffers after the members of the first `upto` groups have rendered
/// `count` samples at `offs`, group after group.
pub open spec fn all_rendered(
    ops: Seq<DemOp>,
    groups: Seq<Vec<usize>>,
    upto: nat,
    bufs: Seq<Stereo>,
    count: nat,
    offs: int,
    arith: Arithmetic,
) -> Seq<Stereo>
    decreases upto,
{
    if upto == 0 {
        bufs
    } else {
        let before = all_rendered(ops, groups, (upto - 1) as nat, bufs, count, offs, arith);
        group_rendered(
            ops,
            groups[upto - 1]@,
            groups[upto - 1]@.len(),
            before,
            count,
            offs,
            upto - 1,
            arith,
        )
    }
}

/// The saved inputs of a simulator: for each operator its name and the named
/// live values of its inputs.
pub type SavedInputs = Vec<(String, Vec<(String, OpIn)>)>;

/// Saved inputs, with the names as text.
pub open spec fn saved(state: Seq<(String, Vec<(String, OpIn)>)>) -> Seq<
    (Seq<char>, Seq<(Seq<char>, OpIn)>),
> {
    state.map_values(|e: (String, Vec<(String, OpIn)>)| (e.0@, entries(e.1@)))
}

/// The operators after the saved inputs `state` have been loaded, entry
/// after entry, over `n` registers.
///
/// An entry goes to the first operator that was added under its name; an
/// entry that names no operator is passed over. Of the values of an entry,
/// those are set that can be resolved over `n` registers.
pub open spec fn loaded(
    ops: Seq<DemOp>,
    infos: Seq<OpInfo>,
    state: Seq<(Seq<char>, Seq<(Seq<char>, OpIn)>)>,
    n: int,
) -> Seq<DemOp>
    decreases state.len(),
{
    if state.len() == 0 {
        ops
    } else {
        let before = loaded(ops, infos, state.drop_last(), n);
        match first_named(infos, state.last().0, 0) {
            Some(idx) => before.update(
                idx as int,
                before[idx as int].imported(resolvable(state.last().1, n)),
            ),
            None => before,
        }
    }
}

/// The registers, the operators in the order in which they were added, what
/// was noted of each operator, the groups with their members, and the
/// snapshot for telemetry with its place in the rotation.
pub struct Simulator {
    pub regs: Vec<u32>,
    pub ops: Vec<DemOp>,
    pub op_infos: Vec<OpInfo>,
    pub op_groups: Vec<OpGroup>,
    pub render_groups: Vec<Vec<usize>>,
    pub sample_row: SampleRow,
    pub scope_sample_len: usize,
    pub scope_sample_pos: usize,
}

impl Simulator {
    /// What holds of a simulator at all times.
    pub open spec fn wf(&self) -> bool {
        &&& self.op_infos@.len() == self.ops@.len()
        &&& self.render_groups@.len() == self.op_groups@.len()
        &&& forall|g: int|
            0 <= g < self.op_groups@.len() ==> (#[trigger] self.op_groups@[g]).index == g
        &&& forall|k: int|
            0 <= k < self.ops@.len() ==> {
                &&& (#[trigger] self.op_infos@[k]).group.index < self.op_groups@.len()
                &&& self.op_infos@[k].group == self.op_groups@[self.op_infos@[k].group.index as int]
                &&& self.op_infos@[k].does_render == self.ops@[k].renders()
            }
        &&& forall|g: int|
            0 <= g < self.render_groups@.len() ==> (#[trigger] self.render_groups@[g])@ == members(
                self.op_infos@,
                g,
            )
        &&& allocated(self.ops@)
        &&& self.regs@.len() == total_outputs(self.ops@, self.ops@.len())
        &&& forall|k: int|
            0 <= k < self.ops@.len() ==> {
                &&& (#[trigger] self.ops@[k]).reads_below(self.regs@.len() as int)
                &&& self.ops@[k].sends_below(self.op_groups@.len() as int)
            }
        &&& 0 < self.scope_sample_len
        &&& self.scope_sample_pos < self.scope_sample_len
    }

    /// Whether `op` can be added to the group `group_index`: the group is
    /// there, the registers for the outputs can be counted, every live input
    /// reads a register that is there once the outputs are bound, and every
    /// group that the operator renders into is there.
    pub open spec fn accepts(&self, op: DemOp, group_index: usize) -> bool {
        &&& group_index < self.op_groups@.len()
        &&& self.regs@.len() + op.output_regs().len() <= usize::MAX
        &&& op.reads_below((self.regs@.len() + op.output_regs().len()) as int)
        &&& op.sends_below(self.op_groups@.len() as int)
    }

    /// In a simulator, every output register is one of the bank.
    pub proof fn lemma_writes_below(&self, k: int)
        requires
            self.wf(),
            0 <= k < self.ops@.len(),
        ensures
            self.ops@[k].writes_below(self.regs@.len() as int),
    {
        let op = self.ops@[k];
        lemma_total_outputs_rises(self.ops@, (k + 1) as nat, self.ops@.len());
        if let DemOp::Sin(s) = op {
            assert(op.output_regs()[0] == s.out);
        }
    }

    /// A simulator stays as it has to be when one operator is replaced by one
    /// with the same outputs, the same part in rendering and inputs that can
    /// be resolved, and registers are neither added nor taken away.
    pub proof fn lemma_wf_keeps(&self, after: &Simulator, idx: int)
        requires
            self.wf(),
            0 <= idx < self.ops@.len(),
            after.ops@ == self.ops@.update(idx, after.ops@[idx]),
            after.ops@[idx].output_regs() == self.ops@[idx].output_regs(),
            after.ops@[idx].renders() == self.ops@[idx].renders(),
            after.ops@[idx].reads_below(self.regs@.len() as int),
            after.ops@[idx].sends_below(self.op_groups@.len() as int),
            after.regs@.len() == self.regs@.len(),
            after.op_infos@ == self.op_infos@,
            after.op_groups@ == self.op_groups@,
            after.render_groups@ == self.render_groups@,
            after.scope_sample_len == self.scope_sample_len,
            after.scope_sample_pos == self.scope_sample_pos,
        ensures
            after.wf(),
    {
        lemma_total_outputs_of_prefix(after.ops@, self.ops@, self.ops@.len());
        assert forall|m: int, j: int|
            0 <= m < after.ops@.len() && 0 <= j < after.ops@[m].output_regs().len() implies (
        #[trigger] after.ops@[m].output_regs()[j]) == total_outputs(after.ops@, m as nat) + j by {
            lemma_total_outputs_of_prefix(after.ops@, self.ops@, m as nat);
        }
    }

    /// A simulator without registers, operators and groups.
    pub fn new() -> (sim: Self)
        ensures
            sim.wf(),
            sim.regs@.len() == 0,
            sim.ops@.len() == 0,
            sim.op_infos@.len() == 0,
            sim.op_groups@.len() == 0,
            sim.render_groups@.len() == 0,
            sim.sample_row.values@.len() == 0,
            sim.sample_row.pos == 0,
            sim.scope_sample_len == SCOPE_SAMPLES,
            sim.scope_sample_pos == 0,
    {
        Simulator {
            regs: Vec::new(),
            ops: Vec::new(),
            op_groups: Vec::new(),
            op_infos: Vec::new(),
            render_groups: Vec::new(),
            sample_row: SampleRow::new(),
            scope_sample_len: SCOPE_SAMPLES,
            scope_sample_pos: 0,
        }
    }

    /// Adds an empty group with the name `name` and gives its index.
    pub fn add_group(&mut self, name: &str) -> (index: usize)
        requires
            old(self).wf(),
        ensures
            final(self).wf(),
            index == old(self).op_groups@.len(),
            final(self).op_groups@.len() == index + 1,
            forall|g: int| 0 <= g < index ==> final(self).op_groups@[g] == old(self).op_groups@[g],
            final(self).op_groups@[index as int].name@ == name@,
            final(self).op_groups@[index as int].index == index,
            final(self).render_groups@[index as int]@.len() == 0,
            final(self).regs@ == old(self).regs@,
            final(self).ops@ == old(self).ops@,
            final(self).op_infos@ == old(self).op_infos@,
            final(self).sample_row == old(self).sample_row,
            final(self).scope_sample_len == old(self).scope_sample_len,
            final(self).scope_sample_pos == old(self).scope_sample_pos,
    {
        let index = self.op_groups.len();
        proof {
            Simulator::lemma_no_members(self.op_infos@, index as int);
        }
        self.op_groups.push(OpGroup { name: name.to_owned(), index });
        self.render_groups.push(Vec::new());
        index
    }

    /// A group that no operator belongs to has no members.
    pub proof fn lemma_no_members(infos: Seq<OpInfo>, g: int)
        requires
            forall|k: int| 0 <= k < infos.len() ==> (#[trigger] infos[k]).group.index != g,
        ensures
            members(infos, g) == Seq::<usize>::empty(),
        decreases infos.len(),
    {
        if infos.len() > 0 {
            Simulator::lemma_no_members(infos.drop_last(), g);
        }
    }

    /// The place of the first operator that was added under the name
    /// `op_name`.
    pub fn get_op_index(&self, op_name: &str) -> (index: Option<usize>)
        ensures
            index == first_named(self.op_infos@, op_name@, 0),
            index matches Some(i) ==> i < self.op_infos@.len(),
    {
        let mut i: usize = 0;
        while i < self.op_infos.len()
            invariant
                i <= self.op_infos.len(),
                first_named(self.op_infos@, op_name@, 0) == first_named(
                    self.op_infos@,
                    op_name@,
                    i as nat,
                ),
            decreases self.op_infos.len() - i,
        {
            if same_text(self.op_infos[i].name.as_str(), op_name) {
                return Some(i);
            }
            i += 1;
        }
        None
    }

    /// Tells whether `op` can be added to the group `group_index`.
    pub fn can_add(&self, op: &DemOp, group_index: usize) -> (ok: bool)
        ensures
            ok == self.accepts(*op, group_index),
    {
        if group_index >= self.op_groups.len() {
            return false;
        }
        let count = op.output_count();
        if count > usize::MAX - self.regs.len() {
            return false;
        }
        let sends = match op {
            DemOp::AudioSend(s) => s.out < self.op_groups.len(),
            _ => true,
        };
        sends && op.inputs_in_range(self.regs.len() + count)
    }

    /// Adds `op` under the name `op_name` to the group `group_index`.
    ///
    /// The operator gets one new register for each of its outputs, in port
    /// order, behind all registers that were there; each starts at zero. The
    /// operator comes last in the operator list and last among the members
    /// of its group. The result is the register of its output `out`, if it
    /// has an output of that name.
    pub fn add_op(
        &mut self,
        op: DemOp,
        op_name: String,
        group_index: usize,
    ) -> (out_reg: Option<usize>)
        requires
            old(self).wf(),
            old(self).accepts(op, group_index),
        ensures
            final(self).wf(),
            final(self).regs@ == old(self).regs@ + Seq::new(
                op.output_regs().len(),
                |i: int| ZERO,
            ),
            final(self).ops@.len() == old(self).ops@.len() + 1,
            forall|k: int|
                0 <= k < old(self).ops@.len() ==> final(self).ops@[k] == old(self).ops@[k],
            final(self).ops@.last().allocated_from(op, old(self).regs@.len() as usize),
            final(self).op_infos@ == old(self).op_infos@.push(
                OpInfo {
                    name: op_name,
                    does_render: op.renders(),
                    group: old(self).op_groups@[group_index as int],
                },
            ),
            final(self).op_groups@ == old(self).op_groups@,
            out_reg == final(self).ops@.last().output_named("out"@),
            final(self).sample_row == old(self).sample_row,
            final(self).scope_sample_len == old(self).scope_sample_len,
            final(self).scope_sample_pos == old(self).scope_sample_pos,
    {
        let mut op = op;
        let ghost given = op;
        let new_start_reg = self.regs.len();
        let new_reg_count = self.regs.len() + op.output_count();
        self.regs.resize(new_reg_count, ZERO);
        op.init_regs(new_start_reg, self.regs.as_mut_slice());
        let out_reg = op.get_output_reg("out");
        proof {
            op.lemma_allocated(given, new_start_reg);
        }
        let info = OpInfo {
            name: op_name,
            does_render: op.does_render(),
            group: self.op_groups[group_index].clone(),
        };
        self.op_infos.push(info);
        self.ops.push(op);
        self.render_groups[group_index].push(self.ops.len() - 1);
        proof {
            let ops = old(self).ops@;
            let infos = old(self).op_infos@;
            let n = ops.len();
            assert(self.op_infos@.drop_last() =~= infos);
            assert forall|m: int, j: int|
                0 <= m < self.ops@.len() && 0 <= j < self.ops@[m].output_regs().len() implies (
            #[trigger] self.ops@[m].output_regs()[j]) == total_outputs(self.ops@, m as nat) + j by {
                lemma_total_outputs_of_prefix(self.ops@, ops, m as nat);
            }
            lemma_total_outputs_of_prefix(self.ops@, ops, n);
            assert forall|k: int| 0 <= k < self.ops@.len() implies {
                &&& (#[trigger] self.ops@[k]).reads_below(self.regs@.len() as int)
                &&& self.ops@[k].sends_below(self.op_groups@.len() as int)
            } by {
                if k < n {
                    ops[k].lemma_reads_below_grows(
                        old(self).regs@.len() as int,
                        self.regs@.len() as int,
                    );
                }
            }
        }
        out_reg
    }

    /// Sets the input port `input_name` of the operator `idx` to `to`: the
    /// default if `as_default`, else the live value.
    ///
    /// The answer is no, and nothing changes, where there is no operator
    /// `idx`, where it has no input port of that name, and where `to` is to
    /// become the live value but reads a register that is not there.
    pub fn set_op_input(
        &mut self,
        idx: usize,
        input_name: &str,
        to: OpIn,
        as_default: bool,
    ) -> (set: bool)
        requires
            old(self).wf(),
        ensures
            final(self).wf(),
            set == old(self).takes_input(idx, input_name@, to, as_default),
            set ==> final(self).ops@ == old(self).ops@.update(
                idx as int,
                old(self).ops@[idx as int].with_input(input_name@, to, as_default),
            ),
            !set ==> final(self).ops@ == old(self).ops@,
            final(self).regs@ == old(self).regs@,
            final(self).op_infos@ == old(self).op_infos@,
            final(self).op_groups@ == old(self).op_groups@,
            final(self).render_groups@ == old(self).render_groups@,
            final(self).sample_row == old(self).sample_row,
            final(self).scope_sample_len == old(self).scope_sample_len,
            final(self).scope_sample_pos == old(self).scope_sample_pos,
    {
        if idx >= self.ops.len() {
            return false;
        }
        if !as_default && !to.in_range(self.regs.len()) {
            return false;
        }
        let ghost before = self.ops@[idx as int];
        let set = self.ops[idx].set_input(input_name, to, as_default);
        proof {
            before.lemma_with_input_keeps(input_name@, to, as_default);
            old(self).lemma_wf_keeps(self, idx as int);
        }
        set
    }

    /// Whether `set_op_input` sets the input.
    pub open spec fn takes_input(
        &self,
        idx: usize,
        input_name: Seq<char>,
        to: OpIn,
        as_default: bool,
    ) -> bool {
        &&& idx < self.ops@.len()
        &&& self.ops@[idx as int].port(input_name) is Some
        &&& as_default || to.reads_below(self.regs@.len() as int)
    }

    /// One control tick at the time `t`.
    ///
    /// Every operator is ticked, in the order in which the operators were
    /// added, so that an operator reads what the operators before it wrote in
    /// this tick. `host` holds the values that the host puts in through the
    /// output proxies. Then the registers are taken as the snapshot of this
    /// tick, the place in the rotation moves on by one, and the snapshot is
    /// offered to the telemetry consumer: with `Some`, the simulator hands
    /// over the new snapshot and takes the consumer's in exchange; with
    /// `None`, the consumer is busy, and the next tick writes over the
    /// snapshot.
    pub fn exec<F: Fn(Arith, u32, u32) -> u32>(
        &mut self,
        t: u32,
        ext_scopes: Option<&mut SampleRow>,
        host: &[u32],
        unit: &F,
    )
        requires
            old(self).wf(),
            deterministic(unit),
        ensures
            final(self).wf(),
            (final(self).ops@, final(self).regs@) == ticked_through(
                old(self).ops@,
                old(self).regs@,
                old(self).ops@.len(),
                t,
                host@,
                arithmetic_of(unit),
            ),
            final(self).regs@.len() == old(self).regs@.len(),
            final(self).ops@.len() == old(self).ops@.len(),
            forall|k: int, index: usize|
                0 <= k < old(self).ops@.len() ==> (#[trigger] final(self).ops@[k].describe(index))
                    == old(self).ops@[k].describe(index),
            final(self).op_infos@ == old(self).op_infos@,
            final(self).op_groups@ == old(self).op_groups@,
            final(self).render_groups@ == old(self).render_groups@,
            final(self).scope_sample_len == old(self).scope_sample_len,
            final(self).scope_sample_pos == (old(self).scope_sample_pos + 1) % (
            old(self).scope_sample_len as int),
            match ext_scopes {
                Some(row) => {
                    &&& final(row).values@ == final(self).regs@
                    &&& final(row).pos == old(self).scope_sample_pos
                    &&& final(self).sample_row == *row
                },
                None => {
                    &&& final(self).sample_row.values@ == final(self).regs@
                    &&& final(self).sample_row.pos == old(self).scope_sample_pos
                },
            },
    {
        let n = self.ops.len();
        let mut i: usize = 0;
        while i < n
            invariant
                i <= n,
                n == old(self).ops@.len(),
                self.wf(),
                deterministic(unit),
                (self.ops@, self.regs@) == ticked_through(
                    old(self).ops@,
                    old(self).regs@,
                    i as nat,
                    t,
                    host@,
                    arithmetic_of(unit),
                ),
                self.ops@.len() == n,
                self.regs@.len() == old(self).regs@.len(),
                forall|k: int, index: usize|
                    0 <= k < n ==> (#[trigger] self.ops@[k].describe(index)) == old(
                        self,
                    ).ops@[k].describe(index),
                self.op_infos@ == old(self).op_infos@,
                self.op_groups@ == old(self).op_groups@,
                self.render_groups@ == old(self).render_groups@,
                self.sample_row == old(self).sample_row,
                self.scope_sample_len == old(self).scope_sample_len,
                self.scope_sample_pos == old(self).scope_sample_pos,
            decreases n - i,
        {
            let ghost before = *self;
            proof {
                self.lemma_writes_below(i as int);
            }
            self.ops[i].exec(t, self.regs.as_mut_slice(), host, unit);
            proof {
                let op = before.ops@[i as int];
                op.lemma_ticked_keeps(before.regs@, arithmetic_of(unit));
                op.lemma_ticked_regs_len(t, before.regs@, host@, arithmetic_of(unit));
                before.lemma_wf_keeps(self, i as int);
                assert forall|k: int, index: usize| 0 <= k < n implies (
                #[trigger] self.ops@[k].describe(index)) == old(self).ops@[k].describe(index) by {
                    assert(before.ops@[k].describe(index) == old(self).ops@[k].describe(index));
                }
            }
            i += 1;
        }
        self.sample_row.read_from_regs(self.regs.as_slice(), self.scope_sample_pos);
        self.scope_sample_pos = (self.scope_sample_pos + 1) % self.scope_sample_len;
        match ext_scopes {
            Some(row) => {
                core::mem::swap(&mut self.sample_row, row);
            },
            None => {},
        }
    }

    /// A stereo buffer of `size` samples of silence for each group.
    pub fn get_group_sample_buffers(&self, size: usize) -> (bufs: Vec<[Vec<u32>; 2]>)
        ensures
            stereo_views(bufs@) == silence(self.op_groups@.len(), size as nat),
    {
        let mut bufs: Vec<[Vec<u32>; 2]> = Vec::with_capacity(self.op_groups.len());
        let mut g: usize = 0;
        while g < self.op_groups.len()
            invariant
                g <= self.op_groups.len(),
                bufs.len() == g,
                stereo_views(bufs@) == silence(g as nat, size as nat),
            decreases self.op_groups.len() - g,
        {
            let mut left: Vec<u32> = Vec::new();
            left.resize(size, ZERO);
            let mut right: Vec<u32> = Vec::new();
            right.resize(size, ZERO);
            assert(left@ =~= Seq::new(size as nat, |i: int| 0u32));
            assert(right@ =~= Seq::new(size as nat, |i: int| 0u32));
            let ghost before = stereo_views(bufs@);
            let pair = [left, right];
            bufs.push(pair);
            assert forall|k: int| 0 <= k < g + 1 implies #[trigger] stereo_views(bufs@)[k]
                == silence((g + 1) as nat, size as nat)[k] by {
                if k < g {
                    assert(stereo_views(bufs@)[k] == before[k]);
                }
            }
            g += 1;
        }
        bufs
    }

    /// Renders one block of `num_samples` samples at `sample_offs`.
    ///
    /// First the samples of the block are set to zero in both channels of
    /// every buffer; what lies outside the block stays. Then the groups are
    /// gone through in their order, and in each group its members in the
    /// order in which they were added: each member that takes part in
    /// rendering renders with its group's buffer as the source. The groups
    /// are gone through once; a group that is to hear another has to come
    /// after it.
    pub fn render<F: Fn(Arith, u32, u32) -> u32>(
        &self,
        num_samples: usize,
        sample_offs: usize,
        grp_bufs: &mut Vec<[Vec<u32>; 2]>,
        unit: &F,
    )
        requires
            self.wf(),
            self.op_groups@.len() <= old(grp_bufs)@.len(),
            sample_offs + num_samples <= usize::MAX,
            all_hold(stereo_views(old(grp_bufs)@), sample_offs + num_samples),
            deterministic(unit),
        ensures
            stereo_views(final(grp_bufs)@) == all_rendered(
                self.ops@,
                self.render_groups@,
                self.render_groups@.len(),
                zeroed(stereo_views(old(grp_bufs)@), sample_offs as int, num_samples as int),
                num_samples as nat,
                sample_offs as int,
                arithmetic_of(unit),
            ),
            same_shape(stereo_views(final(grp_bufs)@), stereo_views(old(grp_bufs)@)),
    {
        let ghost given = stereo_views(grp_bufs@);
        let ghost silent = zeroed(given, sample_offs as int, num_samples as int);
        let mut g: usize = 0;
        while g < grp_bufs.len()
            invariant
                g <= grp_bufs.len(),
                grp_bufs@.len() == given.len(),
                all_hold(given, sample_offs + num_samples),
                sample_offs + num_samples <= usize::MAX,
                forall|k: int| 0 <= k < g ==> stereo(#[trigger] grp_bufs@[k]) == silent[k],
                forall|k: int|
                    g <= k < grp_bufs@.len() ==> stereo(#[trigger] grp_bufs@[k]) == given[k],
                silent == zeroed(given, sample_offs as int, num_samples as int),
            decreases grp_bufs.len() - g,
        {
            let mut i: usize = sample_offs;
            while i < sample_offs + num_samples
                invariant
                    sample_offs <= i <= sample_offs + num_samples,
                    sample_offs + num_samples <= usize::MAX,
                    g < grp_bufs.len(),
                    grp_bufs@.len() == given.len(),
                    given[g as int].left.len() >= sample_offs + num_samples,
                    given[g as int].right.len() >= sample_offs + num_samples,
                    grp_bufs@[g as int][0]@ == cleared(
                        given[g as int].left,
                        sample_offs as int,
                        i - sample_offs,
                    ),
                    grp_bufs@[g as int][1]@ == cleared(
                        given[g as int].right,
                        sample_offs as int,
                        i - sample_offs,
                    ),
                    forall|k: int| 0 <= k < g ==> stereo(#[trigger] grp_bufs@[k]) == silent[k],
                    forall|k: int|
                        g < k < grp_bufs@.len() ==> stereo(#[trigger] grp_bufs@[k]) == given[k],
                decreases sample_offs + num_samples - i,
            {
                grp_bufs[g][0][i] = ZERO;
                grp_bufs[g][1][i] = ZERO;
                i += 1;
            }
            g += 1;
        }

        let mut ig: usize = 0;
        while ig < self.render_groups.len()
            invariant
                ig <= self.render_groups.len(),
                self.wf(),
                self.op_groups@.len() <= given.len(),
                all_hold(given, sample_offs + num_samples),
                deterministic(unit),
                same_shape(stereo_views(grp_bufs@), given),
                stereo_views(grp_bufs@) == all_rendered(
                    self.ops@,
                    self.render_groups@,
                    ig as nat,
                    silent,
                    num_samples as nat,
                    sample_offs as int,
                    arithmetic_of(unit),
                ),
            decreases self.render_groups.len() - ig,
        {
            let ghost group = self.render_groups@[ig as int]@;
            let ghost start = stereo_views(grp_bufs@);
            proof {
                lemma_members_in_list(self.op_infos@, ig as int);
            }
            let mut j: usize = 0;
            while j < self.render_groups[ig].len()
                invariant
                    j <= group.len(),
                    ig < self.render_groups.len(),
                    group == self.render_groups@[ig as int]@,
                    self.wf(),
                    self.op_groups@.len() <= given.len(),
                    all_hold(given, sample_offs + num_samples),
                    deterministic(unit),
                    forall|k: int| 0 <= k < group.len() ==> (#[trigger] group[k]) < self.ops@.len(),
                    same_shape(stereo_views(grp_bufs@), given),
                    stereo_views(grp_bufs@) == group_rendered(
                        self.ops@,
                        group,
                        j as nat,
                        start,
                        num_samples as nat,
                        sample_offs as int,
                        ig as int,
                        arithmetic_of(unit),
                    ),
                decreases group.len() - j,
            {
                let m = self.render_groups[ig][j];
                let ghost before = stereo_views(grp_bufs@);
                proof {
                    self.ops@[m as int].lemma_rendered_shape(
                        before,
                        num_samples as nat,
                        sample_offs as int,
                        ig as int,
                        arithmetic_of(unit),
                    );
                }
                if self.op_infos[m].does_render {
                    self.ops[m].render(num_samples, sample_offs, ig, grp_bufs, unit);
                }
                j += 1;
            }
            ig += 1;
        }
    }

    /// The saved inputs of the simulator, with the names as text.
    pub open spec fn exported(&self) -> Seq<(Seq<char>, Seq<(Seq<char>, OpIn)>)> {
        Seq::new(self.ops@.len(), |i: int| (self.op_infos@[i].name@, self.ops@[i].exported()))
    }

    /// Loads saved inputs: the named live values of each entry are set on the
    /// first operator that was added under the entry's name.
    ///
    /// An entry that names no operator is passed over, and so is a port name
    /// that the operator does not know, and a value that reads a register
    /// that is not there. Defaults are never touched.
    pub fn deserialize_inputs(&mut self, op_inputs: SavedInputs)
        requires
            old(self).wf(),
        ensures
            final(self).wf(),
            final(self).ops@ == loaded(
                old(self).ops@,
                old(self).op_infos@,
                saved(op_inputs@),
                old(self).regs@.len() as int,
            ),
            final(self).ops@.len() == old(self).ops@.len(),
            final(self).regs@ == old(self).regs@,
            final(self).op_infos@ == old(self).op_infos@,
            final(self).op_groups@ == old(self).op_groups@,
            final(self).render_groups@ == old(self).render_groups@,
            final(self).sample_row == old(self).sample_row,
            final(self).scope_sample_len == old(self).scope_sample_len,
            final(self).scope_sample_pos == old(self).scope_sample_pos,
    {
        let mut i: usize = 0;
        while i < op_inputs.len()
            invariant
                i <= op_inputs.len(),
                self.wf(),
                self.ops@ == loaded(
                    old(self).ops@,
                    old(self).op_infos@,
                    saved(op_inputs@.take(i as int)),
                    old(self).regs@.len() as int,
                ),
                self.regs@ == old(self).regs@,
                self.op_infos@ == old(self).op_infos@,
                self.op_groups@ == old(self).op_groups@,
                self.render_groups@ == old(self).render_groups@,
                self.sample_row == old(self).sample_row,
                self.scope_sample_len == old(self).scope_sample_len,
                self.scope_sample_pos == old(self).scope_sample_pos,
            decreases op_inputs.len() - i,
        {
            let ghost done = saved(op_inputs@.take(i as int));
            assert(saved(op_inputs@.take(i + 1)).drop_last() =~= done);
            let found = self.get_op_index(op_inputs[i].0.as_str());
            if let Some(idx) = found {
                let kept = resolvable_entries(&op_inputs[i].1, self.regs.len());
                let ghost before = *self;
                self.ops[idx].deserialize_inputs(&kept);
                proof {
                    let n = self.regs@.len() as int;
                    lemma_resolvable(entries(op_inputs@[i as int].1@), n);
                    before.ops@[idx as int].lemma_imported_keeps(entries(kept@), n);
                    before.lemma_wf_keeps(self, idx as int);
                }
            }
            i += 1;
        }
        assert(op_inputs@.take(op_inputs.len() as int) =~= op_inputs@);
    }

    /// Saves the inputs: for each operator, in the order of the operator
    /// list, its name and the name of each input port with its live value.
    /// Defaults are not saved.
    pub fn serialize_inputs(&self) -> (valmap: SavedInputs)
        requires
            self.wf(),
        ensures
            saved(valmap@) == self.exported(),
    {
        let mut valmap: SavedInputs = Vec::new();
        let mut i: usize = 0;
        while i < self.ops.len()
            invariant
                i <= self.ops.len(),
                self.op_infos@.len() == self.ops@.len(),
                valmap.len() == i,
                forall|k: int|
                    0 <= k < i ==> (#[trigger] valmap[k]).0@ == self.op_infos@[k].name@
                        && entries(valmap[k].1@) == self.ops@[k].exported(),
            decreases self.ops.len() - i,
        {
            valmap.push((self.op_infos[i].name.clone(), self.ops[i].serialize_inputs()));
            i += 1;
        }
        valmap
    }

    /// The description of every operator with what was noted of it, in the
    /// order of the operator list.
    pub fn get_specs(&self) -> (specs: Vec<(DemOpIOSpec, OpInfo)>)
        requires
            self.wf(),
        ensures
            specs@.len() == self.ops@.len(),
            forall|i: int|
                0 <= i < specs@.len() ==> (#[trigger] specs@[i]).0@ == self.ops@[i].describe(
                    i as usize,
                ) && specs@[i].1 == self.op_infos@[i],
    {
        let mut specs: Vec<(DemOpIOSpec, OpInfo)> = Vec::new();
        let mut i: usize = 0;
        while i < self.ops.len()
            invariant
                i <= self.ops.len(),
                self.op_infos@.len() == self.ops@.len(),
                specs.len() == i,
                forall|k: int|
                    0 <= k < i ==> (#[trigger] specs@[k]).0@ == self.ops@[k].describe(k as usize)
                        && specs@[k].1 == self.op_infos@[k],
            decreases self.ops.len() - i,
        {
            specs.push((self.ops[i].io_spec(i), self.op_infos[i].clone()));
            i += 1;
        }
        specs
    }

    /// Writes the register `idx`, and tells whether there is such a
    /// register.
    pub fn set_reg(&mut self, idx: usize, v: u32) -> (written: bool)
        ensures
            written == (idx < old(self).regs@.len()),
            written ==> final(self).regs@ == old(self).regs@.update(idx as int, v),
            !written ==> final(self).regs@ == old(self).regs@,
            final(self).ops@ == old(self).ops@,
            final(self).op_infos@ == old(self).op_infos@,
            final(self).op_groups@ == old(self).op_groups@,
            final(self).render_groups@ == old(self).render_groups@,
            final(self).sample_row == old(self).sample_row,
            final(self).scope_sample_len == old(self).scope_sample_len,
            final(self).scope_sample_pos == old(self).scope_sample_pos,
            old(self).wf() ==> final(self).wf(),
    {
        if self.regs.len() > idx {
            self.regs[idx] = v;
            true
        } else {
            false
        }
    }

    /// Reads the register `idx`. Where there is no such register, the value
    /// is zero.
    pub fn get_reg(&self, idx: usize) -> (v: u32)
        ensures
            v == if idx < self.regs@.len() {
                self.regs@[idx as int]
            } else {
                ZERO
            },
    {
        if self.regs.len() > idx {
            self.regs[idx]
        } else {
            ZERO
        }
    }
}

} // verus!
