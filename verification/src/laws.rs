//! What holds of the engine as a whole.

use vstd::prelude::*;
use crate::arith::{
    clamped, difference, is_nan, less, product, quotient, sum, Arith, Arithmetic, ONE, ZERO,
};
use crate::buffer::{agree_outside, all_hold, zeroed, Stereo};
use crate::dem_op::DemOp;
use crate::op_in::OpIn;
use crate::ops::{AudioSend, OutProxy, Sin};
use crate::group::{first_named, OpInfo};
use crate::port::lemma_resolvable;
use crate::group::lemma_members_in_list;
use crate::simulator::{
    all_rendered, group_rendered, lemma_total_outputs_rises, loaded, total_outputs, Simulator,
};
use crate::text::{decimal, numbered_out};

verus! {

/// Resolving an input is repeatable: whatever two calls of `calc` return for
/// the same input over the same registers, with the same arithmetic unit, is
/// the same value.
pub proof fn lemma_resolution_repeats<F: Fn(Arith, u32, u32) -> u32>(
    input: OpIn,
    regs: &[u32],
    unit: &F,
    first: u32,
    second: u32,
)
    requires
        call_ensures(OpIn::calc::<F>, (&input, regs, unit), first),
        call_ensures(OpIn::calc::<F>, (&input, regs, unit), second),
    ensures
        first == second,
{
}

/// Registers are handed out without gaps, in the order in which the
/// operators were added: output `j` of the operator `m` has the register
/// whose index is the number of outputs of all operators before `m`, plus
/// `j`, and that register is one of the bank.
pub proof fn lemma_registers_are_contiguous(sim: &Simulator, m: int, j: int)
    requires
        sim.wf(),
        0 <= m < sim.ops@.len(),
        0 <= j < sim.ops@[m].output_regs().len(),
    ensures
        sim.ops@[m].output_regs()[j] == total_outputs(sim.ops@, m as nat) + j,
        sim.ops@[m].output_regs()[j] < sim.regs@.len(),
        sim.regs@.len() == total_outputs(sim.ops@, sim.ops@.len()),
{
    lemma_total_outputs_rises(sim.ops@, (m + 1) as nat, sim.ops@.len());
}

/// No register belongs to two outputs.
pub proof fn lemma_registers_are_apart(sim: &Simulator, m: int, j: int, n: int, k: int)
    requires
        sim.wf(),
        0 <= m < sim.ops@.len(),
        0 <= j < sim.ops@[m].output_regs().len(),
        0 <= n < sim.ops@.len(),
        0 <= k < sim.ops@[n].output_regs().len(),
        (m, j) != (n, k),
    ensures
        sim.ops@[m].output_regs()[j] != sim.ops@[n].output_regs()[k],
{
    lemma_registers_are_contiguous(sim, m, j);
    lemma_registers_are_contiguous(sim, n, k);
    if m < n {
        lemma_total_outputs_rises(sim.ops@, (m + 1) as nat, n as nat);
    } else if n < m {
        lemma_total_outputs_rises(sim.ops@, (n + 1) as nat, m as nat);
    }
}

/// A tick writes the registers that are bound to the outputs of the
/// operator, and no other.
pub proof fn lemma_tick_writes_own_outputs(
    op: DemOp,
    t: u32,
    regs: Seq<u32>,
    host: Seq<u32>,
    arith: Arithmetic,
    r: int,
)
    requires
        op.writes_below(regs.len() as int),
        0 <= r < regs.len(),
        !op.writes(r),
    ensures
        op.ticked_regs(t, regs, host, arith)[r] == regs[r],
{
    match op {
        DemOp::Sin(s) => {
            assert(op.output_regs()[0] == s.out);
        },
        DemOp::AudioSend(_) => {},
        DemOp::OutProxy(p) => {
            assert forall|i: int| 0 <= i < p.out_regs@.len() implies (#[trigger] p.out_regs@[i])
                != r by {
                assert(op.output_regs()[i] == p.out_regs@[i]);
            }
            lemma_copied_keeps(p.out_regs@, host, regs, p.out_regs@.len(), r);
        },
    }
}

/// Copying the host's values leaves a register alone that no output is
/// bound to.
proof fn lemma_copied_keeps(
    out_regs: Seq<usize>,
    host: Seq<u32>,
    regs: Seq<u32>,
    count: nat,
    r: int,
)
    requires
        count <= out_regs.len(),
        forall|i: int| 0 <= i < out_regs.len() ==> (#[trigger] out_regs[i]) < regs.len(),
        forall|i: int| 0 <= i < out_regs.len() ==> (#[trigger] out_regs[i]) != r,
        0 <= r < regs.len(),
    ensures
        OutProxy::copied(out_regs, host, regs, count)[r] == regs[r],
    decreases count,
{
    if count > 0 {
        lemma_copied_keeps(out_regs, host, regs, (count - 1) as nat, r);
        OutProxy::lemma_copied_len(out_regs, host, regs, (count - 1) as nat);
    }
}

/// A tick can be repeated: where no live input of an operator reads one of
/// the operator's own outputs, a second tick at the same time, with the same
/// values of the host, writes what the first wrote and keeps what the first
/// kept.
pub proof fn lemma_tick_is_idempotent(
    sim: &Simulator,
    k: int,
    t: u32,
    host: Seq<u32>,
    arith: Arithmetic,
)
    requires
        sim.wf(),
        0 <= k < sim.ops@.len(),
        forall|i: int| !(sim.ops@[k].reads(i) && sim.ops@[k].writes(i)),
    ensures
        ({
            let op = sim.ops@[k];
            let once = op.ticked_regs(t, sim.regs@, host, arith);
            let kept = op.ticked(sim.regs@, arith);
            &&& kept.ticked_regs(t, once, host, arith) == once
            &&& kept.ticked(once, arith) == kept
        }),
{
    let op = sim.ops@[k];
    let regs = sim.regs@;
    let once = op.ticked_regs(t, regs, host, arith);
    sim.lemma_writes_below(k);
    match op {
        DemOp::Sin(s) => {
            assert(op.output_regs()[0] == s.out);
            assert forall|j: int| 0 <= j < 4 implies (#[trigger] s.values[j]).value(once, arith)
                == s.values[j].value(regs, arith) by {
                assert forall|i: int| s.values[j].reads(i) implies once[i] == regs[i] by {
                    assert(op.input_values()[j] == s.values[j]);
                    assert(op.reads(i));
                }
                s.values[j].lemma_value_depends_on_reads(once, regs, arith);
            }
        },
        DemOp::AudioSend(_) => {},
        DemOp::OutProxy(p) => {
            let start = total_outputs(sim.ops@, k as nat) as int;
            assert forall|i: int| 0 <= i < p.out_regs@.len() implies (#[trigger] p.out_regs@[i])
                == start + i by {
                assert(sim.ops@[k].output_regs()[i] == total_outputs(sim.ops@, k as nat) + i);
            }
            lemma_total_outputs_rises(sim.ops@, (k + 1) as nat, sim.ops@.len());
            OutProxy::lemma_copied_in_a_row(p.out_regs@, host, regs, start, p.out_regs@.len());
            OutProxy::lemma_copied_in_a_row(p.out_regs@, host, once, start, p.out_regs@.len());
        },
    }
}

/// Rendering a block touches the block and nothing else: in every buffer,
/// the samples outside the block are after the pass what they were before,
/// and no buffer has grown or shrunk.
pub proof fn lemma_render_stays_in_the_block(
    sim: &Simulator,
    bufs: Seq<Stereo>,
    count: nat,
    offs: int,
    arith: Arithmetic,
)
    requires
        sim.wf(),
        sim.op_groups@.len() <= bufs.len(),
        0 <= offs,
        all_hold(bufs, offs + count),
    ensures
        agree_outside(
            all_rendered(
                sim.ops@,
                sim.render_groups@,
                sim.render_groups@.len(),
                zeroed(bufs, offs, count as int),
                count,
                offs,
                arith,
            ),
            bufs,
            offs,
            count as int,
        ),
{
    lemma_groups_stay_in_the_block(sim, bufs, count, offs, arith, sim.render_groups@.len());
}

/// The pass over the first `upto` groups touches the block and nothing else.
proof fn lemma_groups_stay_in_the_block(
    sim: &Simulator,
    bufs: Seq<Stereo>,
    count: nat,
    offs: int,
    arith: Arithmetic,
    upto: nat,
)
    requires
        sim.wf(),
        sim.op_groups@.len() <= bufs.len(),
        0 <= offs,
        all_hold(bufs, offs + count),
        upto <= sim.render_groups@.len(),
    ensures
        agree_outside(
            all_rendered(
                sim.ops@,
                sim.render_groups@,
                upto,
                zeroed(bufs, offs, count as int),
                count,
                offs,
                arith,
            ),
            bufs,
            offs,
            count as int,
        ),
    decreases upto,
{
    if upto > 0 {
        lemma_groups_stay_in_the_block(sim, bufs, count, offs, arith, (upto - 1) as nat);
        let before = all_rendered(
            sim.ops@,
            sim.render_groups@,
            (upto - 1) as nat,
            zeroed(bufs, offs, count as int),
            count,
            offs,
            arith,
        );
        let group = sim.render_groups@[upto - 1]@;
        lemma_members_in_list(sim.op_infos@, upto - 1);
        lemma_members_stay_in_the_block(
            sim,
            bufs,
            before,
            group,
            count,
            offs,
            arith,
            upto - 1,
            group.len(),
        );
    }
}

/// The pass over the first `upto` members of a group touches the block and
/// nothing else.
proof fn lemma_members_stay_in_the_block(
    sim: &Simulator,
    bufs: Seq<Stereo>,
    start: Seq<Stereo>,
    group: Seq<usize>,
    count: nat,
    offs: int,
    arith: Arithmetic,
    g: int,
    upto: nat,
)
    requires
        sim.wf(),
        sim.op_groups@.len() <= bufs.len(),
        0 <= offs,
        all_hold(bufs, offs + count),
        0 <= g < sim.op_groups@.len(),
        agree_outside(start, bufs, offs, count as int),
        forall|j: int| 0 <= j < group.len() ==> (#[trigger] group[j]) < sim.ops@.len(),
        upto <= group.len(),
    ensures
        agree_outside(
            group_rendered(sim.ops@, group, upto, start, count, offs, g, arith),
            bufs,
            offs,
            count as int,
        ),
    decreases upto,
{
    if upto > 0 {
        lemma_members_stay_in_the_block(
            sim,
            bufs,
            start,
            group,
            count,
            offs,
            arith,
            g,
            (upto - 1) as nat,
        );
        let before = group_rendered(
            sim.ops@,
            group,
            (upto - 1) as nat,
            start,
            count,
            offs,
            g,
            arith,
        );
        let op = sim.ops@[group[upto - 1] as int];
        assert(op.sends_below(sim.op_groups@.len() as int));
        assert(op.can_render(before, count as int, offs, g));
    }
}

/// An input port of an unknown name cannot be set: the operator stays as it
/// is.
pub proof fn lemma_unknown_input_changes_nothing(
    op: DemOp,
    name: Seq<char>,
    to: OpIn,
    as_default: bool,
)
    requires
        op.port(name) is None,
    ensures
        op.with_input(name, to, as_default) == op,
{
}

/// Setting a default leaves the live values as they are, and with them what
/// the next tick writes and keeps.
pub proof fn lemma_default_is_a_shadow(
    op: DemOp,
    name: Seq<char>,
    to: OpIn,
    t: u32,
    regs: Seq<u32>,
    host: Seq<u32>,
    arith: Arithmetic,
)
    ensures
        op.with_input(name, to, true).input_values() == op.input_values(),
        op.with_input(name, to, true).ticked_regs(t, regs, host, arith) == op.ticked_regs(
            t,
            regs,
            host,
            arith,
        ),
        op.with_input(name, to, true).ticked(regs, arith) == op.ticked(regs, arith).with_input(
            name,
            to,
            true,
        ),
{
    if let DemOp::Sin(s) = op {
        assert(s.with_input(name, to, true).values == s.values);
    }
}

/// Saving the inputs of an operator and loading them into an operator with
/// the same input ports gives that operator the live values that were saved.
/// Loaded into the operator itself, they change nothing.
pub proof fn lemma_export_import_round_trip(op: DemOp, other: DemOp)
    requires
        other.describe(0).input_names() == op.describe(0).input_names(),
    ensures
        other.imported(op.exported()).input_values() == op.input_values(),
        other.imported(op.exported()).input_defaults() == other.input_defaults(),
        op.imported(op.exported()) == op,
{
    reveal_with_fuel(DemOp::imported, 5);
    reveal_strlit("amp");
    reveal_strlit("phase");
    reveal_strlit("vert");
    reveal_strlit("freq");
    reveal_strlit("vol_l");
    reveal_strlit("vol_r");
    assert("vol_l"@[4] != "vol_r"@[4]);
    let saved = op.exported();
    match op {
        DemOp::Sin(s) => {
            assert(other.describe(0).input_names().len() == 4);
            assert(other is Sin);
            let l3 = saved.drop_last();
            let l2 = l3.drop_last();
            let l1 = l2.drop_last();
            assert(l1.drop_last().len() == 0);
            assert(saved.last() == ("freq"@, s.values[3]));
            assert(l3.last() == ("vert"@, s.values[2]));
            assert(l2.last() == ("phase"@, s.values[1]));
            assert(l1.last() == ("amp"@, s.values[0]));
            lemma_sin_import(other->Sin_0, s);
            lemma_sin_import(s, s);
        },
        DemOp::AudioSend(s) => {
            assert(other.describe(0).input_names().len() == 2);
            assert(other is AudioSend);
            let l1 = saved.drop_last();
            assert(l1.drop_last().len() == 0);
            assert(saved.last() == ("vol_r"@, s.volume_r));
            assert(l1.last() == ("vol_l"@, s.volume_l));
        },
        DemOp::OutProxy(_) => {
            assert(other.describe(0).input_names().len() == 0);
            assert(other is OutProxy);
            assert(saved.len() == 0);
        },
    }
}

/// Setting the four inputs of an oscillator to the live values of another
/// gives it these live values, and changes neither its defaults nor its
/// output.
proof fn lemma_sin_import(target: Sin, source: Sin)
    ensures
        ({
            let loaded = target.with_input("amp"@, source.values[0], false).with_input(
                "phase"@,
                source.values[1],
                false,
            ).with_input("vert"@, source.values[2], false).with_input(
                "freq"@,
                source.values[3],
                false,
            );
            &&& loaded.values == source.values
            &&& loaded.defaults == target.defaults
            &&& loaded.out == target.out
        }),
{
    reveal_strlit("amp");
    reveal_strlit("phase");
    reveal_strlit("vert");
    reveal_strlit("freq");
    assert("vert"@[0] != "freq"@[0]);
    assert("amp"@.len() == 3 && "phase"@.len() == 5 && "vert"@.len() == 4 && "freq"@.len() == 4);
    let s1 = target.with_input("amp"@, source.values[0], false);
    let s2 = s1.with_input("phase"@, source.values[1], false);
    let s3 = s2.with_input("vert"@, source.values[2], false);
    let s4 = s3.with_input("freq"@, source.values[3], false);
    assert(s1.values@ == target.values@.update(0, source.values[0]));
    assert(s2.values@ == s1.values@.update(1, source.values[1]));
    assert(s3.values@ == s2.values@.update(2, source.values[2]));
    assert(s4.values@ == s3.values@.update(3, source.values[3]));
    assert(s4.values =~= source.values);
}

/// Whether no two operators were added under one name.
pub open spec fn names_differ(infos: Seq<OpInfo>) -> bool {
    forall|i: int, j: int|
        0 <= i < infos.len() && 0 <= j < infos.len() && i != j ==> (#[trigger] infos[i]).name@ != (
        #[trigger] infos[j]).name@
}

/// Where no two operators have one name, loading what was saved from a
/// simulator into that simulator leaves every operator as it is.
pub proof fn lemma_save_load_round_trip(sim: &Simulator)
    requires
        sim.wf(),
        names_differ(sim.op_infos@),
    ensures
        loaded(sim.ops@, sim.op_infos@, sim.exported(), sim.regs@.len() as int) == sim.ops@,
{
    lemma_loaded_prefix(sim, sim.ops@.len());
    assert(sim.exported().take(sim.ops@.len() as int) =~= sim.exported());
}

/// Loading the saved inputs of the first `upto` operators leaves every
/// operator as it is.
proof fn lemma_loaded_prefix(sim: &Simulator, upto: nat)
    requires
        sim.wf(),
        names_differ(sim.op_infos@),
        upto <= sim.ops@.len(),
    ensures
        loaded(
            sim.ops@,
            sim.op_infos@,
            sim.exported().take(upto as int),
            sim.regs@.len() as int,
        ) == sim.ops@,
    decreases upto,
{
    if upto > 0 {
        let n = sim.regs@.len() as int;
        let state = sim.exported().take(upto as int);
        let op = sim.ops@[upto - 1];
        lemma_loaded_prefix(sim, (upto - 1) as nat);
        assert(state.drop_last() =~= sim.exported().take(upto - 1));
        assert(sim.op_infos@.len() == sim.op_infos.len());
        lemma_first_named_finds(sim.op_infos@, upto - 1, 0);
        assert forall|k: int| 0 <= k < op.exported().len() implies (
        #[trigger] op.exported()[k]).1.reads_below(n) by {
            if let DemOp::Sin(s) = op {
                assert(s.values[k].reads_below(n));
            }
        }
        lemma_resolvable(op.exported(), n);
        lemma_export_import_round_trip(op, op);
        assert(state.last() == (sim.op_infos@[upto - 1].name@, op.exported()));
        assert(sim.ops@.update(upto - 1, op) =~= sim.ops@);
    }
}

/// Where no two operators have one name, the name of an operator finds that
/// operator.
proof fn lemma_first_named_finds(infos: Seq<OpInfo>, i: int, from: nat)
    requires
        names_differ(infos),
        from <= i < infos.len(),
        infos.len() <= usize::MAX,
    ensures
        first_named(infos, infos[i].name@, from) == Some(i as usize),
    decreases i - from,
{
    if from < i {
        lemma_first_named_finds(infos, i, from + 1);
    }
}

/// A proxy has no output of the plain name `out`: its outputs are numbered.
pub proof fn lemma_proxy_outputs_are_numbered(p: OutProxy)
    ensures
        p.output_named("out"@) is None,
{
    lemma_out_is_not_numbered(0, p.out_regs@.len());
}

/// A decimal numeral has at least one digit.
proof fn lemma_decimal_is_not_empty(n: nat)
    ensures
        decimal(n).len() >= 1,
    decreases n,
{
    if n >= 10 {
        lemma_decimal_is_not_empty(n / 10);
    }
}

/// The plain name `out` is the name of no numbered output.
proof fn lemma_out_is_not_numbered(from: nat, n: nat)
    ensures
        OutProxy::first_numbered("out"@, from, n) is None,
    decreases n - from,
{
    if from < n {
        lemma_decimal_is_not_empty(from);
        lemma_out_is_not_numbered(from + 1, n);
    }
}

/// Held to the interval from zero to one, a number is neither below zero nor
/// above one.
pub proof fn lemma_clamped_is_held(x: u32)
    ensures
        !less(clamped(x), ZERO),
        !less(ONE, clamped(x)),
        !is_nan(x) ==> !is_nan(clamped(x)),
{
}

/// Holding to the interval from zero to one keeps the order: of two numbers,
/// the lesser does not come out greater.
pub proof fn lemma_clamped_keeps_order(a: u32, b: u32)
    requires
        less(a, b),
    ensures
        !less(clamped(b), clamped(a)),
{
}

/// The domain remap runs against its result bounds: in an arithmetic in which
/// the difference of the source to the lower domain bound is zero, and zero
/// divided by the width of the domain is zero, the remap yields `b_to` if
/// `a_to * 0 + b_to * (1 - 0)` is `b_to`.
pub proof fn lemma_remap_at_lower_bound(
    reg: usize,
    a_from: u32,
    b_from: u32,
    a_to: u32,
    b_to: u32,
    regs: Seq<u32>,
    arith: Arithmetic,
)
    requires
        difference(arith, regs[reg as int], a_from) == ZERO,
        quotient(arith, ZERO, difference(arith, b_from, a_from)) == ZERO,
        sum(arith, product(arith, a_to, ZERO), product(arith, b_to, difference(arith, ONE, ZERO)))
            == b_to,
    ensures
        OpIn::RegMap(reg, a_from, b_from, a_to, b_to).value(regs, arith) == b_to,
{
}

/// The other end of the domain remap: in an arithmetic in which the
/// difference of the source to the lower domain bound, divided by the width
/// of the domain, is one, the remap yields `a_to` if
/// `a_to * 1 + b_to * (1 - 1)` is `a_to`.
pub proof fn lemma_remap_at_upper_bound(
    reg: usize,
    a_from: u32,
    b_from: u32,
    a_to: u32,
    b_to: u32,
    regs: Seq<u32>,
    arith: Arithmetic,
)
    requires
        quotient(
            arith,
            difference(arith, regs[reg as int], a_from),
            difference(arith, b_from, a_from),
        ) == ONE,
        sum(arith, product(arith, a_to, ONE), product(arith, b_to, difference(arith, ONE, ONE)))
            == a_to,
    ensures
        OpIn::RegMap(reg, a_from, b_from, a_to, b_to).value(regs, arith) == a_to,
{
}

} // verus!
