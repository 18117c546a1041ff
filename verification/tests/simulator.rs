use std::sync::{Arc, Mutex};

use signal_ops::arith::{HALF, ONE, TWO, ZERO};
use signal_ops::simulator::SCOPE_SAMPLES;
use signal_ops::{
    Arith, AudioSend, DebugRegisters, DemOp, OpGroup, OpIn, OpInfo, OutProxy, SampleRow,
    Simulator, Sin,
};

fn unit(op: Arith, a: u32, b: u32) -> u32 {
    let x = f32::from_bits(a);
    let y = f32::from_bits(b);
    let r = match op {
        Arith::Add => x + y,
        Arith::Sub => x - y,
        Arith::Mul => x * y,
        Arith::Div => x / y,
        Arith::Sin => x.sin(),
        Arith::SquareScale => (((x as f64) * (x as f64)) * (y as f64)) as f32,
    };
    r.to_bits()
}

fn bits(values: &[f32]) -> Vec<u32> {
    values.iter().map(|v| v.to_bits()).collect()
}

fn floats(values: &[u32]) -> Vec<f32> {
    values.iter().map(|v| f32::from_bits(*v)).collect()
}

fn add(sim: &mut Simulator, op: DemOp, name: &str, group: usize) -> Option<usize> {
    assert!(sim.can_add(&op, group));
    sim.add_op(op, name.to_string(), group)
}

fn send_to(out: usize) -> DemOp {
    let mut send = AudioSend::new();
    send.out = out;
    DemOp::AudioSend(send)
}

#[test]
fn new_simulator_is_empty() {
    let sim = Simulator::new();
    assert!(sim.regs.is_empty());
    assert!(sim.ops.is_empty());
    assert!(sim.op_infos.is_empty());
    assert!(sim.op_groups.is_empty());
    assert!(sim.render_groups.is_empty());
    assert_eq!(sim.scope_sample_len, 128);
    assert_eq!(SCOPE_SAMPLES, 128);
    assert_eq!(sim.scope_sample_pos, 0);
    assert_eq!(sim.sample_row.pos, 0);
    assert!(sim.sample_row.values.is_empty());
}

#[test]
fn groups_are_numbered_as_they_are_added() {
    let mut sim = Simulator::new();
    assert_eq!(sim.add_group("drums"), 0);
    assert_eq!(sim.add_group("bass"), 1);
    assert_eq!(sim.add_group("drums"), 2);
    assert_eq!(sim.op_groups[1], OpGroup { name: "bass".to_string(), index: 1 });
    assert_eq!(sim.op_groups[2], OpGroup { name: "drums".to_string(), index: 2 });
    assert_eq!(sim.render_groups, vec![Vec::<usize>::new(); 3]);
}

#[test]
fn registers_are_handed_out_in_a_row() {
    let mut sim = Simulator::new();
    let g = sim.add_group("main");
    let counts = [1usize, 3, 0, 1, 2, 0, 1];
    let mut before = 0;
    for (m, count) in counts.iter().enumerate() {
        let op = match *count {
            0 => send_to(g),
            1 => DemOp::Sin(Sin::new()),
            n => DemOp::OutProxy(OutProxy::new(n)),
        };
        let out = add(&mut sim, op, &format!("op{}", m), g);
        let regs = sim.ops[m].io_spec(m).output_regs;
        assert_eq!(regs.len(), *count);
        for (j, reg) in regs.iter().enumerate() {
            assert_eq!(*reg, before + j);
        }
        assert_eq!(out, if *count == 1 { Some(before) } else { None });
        before += count;
        assert_eq!(sim.regs.len(), before);
    }
    assert_eq!(floats(&sim.regs), vec![0.0; 8]);
}

#[test]
fn adding_an_operator_keeps_what_the_registers_hold() {
    let mut sim = Simulator::new();
    let g = sim.add_group("main");
    add(&mut sim, DemOp::OutProxy(OutProxy::new(2)), "in", g);
    assert!(sim.set_reg(0, 1.5f32.to_bits()));
    assert!(sim.set_reg(1, 2.5f32.to_bits()));
    add(&mut sim, DemOp::Sin(Sin::new()), "osc", g);
    assert_eq!(floats(&sim.regs), vec![1.5, 2.5, 0.0]);
}

#[test]
fn adding_an_operator_notes_name_group_and_rendering() {
    let mut sim = Simulator::new();
    let a = sim.add_group("a");
    let b = sim.add_group("b");
    add(&mut sim, DemOp::Sin(Sin::new()), "osc", b);
    add(&mut sim, send_to(a), "send", b);
    add(&mut sim, DemOp::OutProxy(OutProxy::new(1)), "host", a);
    add(&mut sim, send_to(b), "send", a);
    assert_eq!(
        sim.op_infos,
        vec![
            OpInfo {
                name: "osc".to_string(),
                does_render: false,
                group: OpGroup { name: "b".to_string(), index: 1 },
            },
            OpInfo {
                name: "send".to_string(),
                does_render: true,
                group: OpGroup { name: "b".to_string(), index: 1 },
            },
            OpInfo {
                name: "host".to_string(),
                does_render: false,
                group: OpGroup { name: "a".to_string(), index: 0 },
            },
            OpInfo {
                name: "send".to_string(),
                does_render: true,
                group: OpGroup { name: "a".to_string(), index: 0 },
            },
        ]
    );
    assert_eq!(sim.render_groups, vec![vec![2, 3], vec![0, 1]]);
    assert_eq!(sim.get_op_index("send"), Some(1));
    assert_eq!(sim.get_op_index("host"), Some(2));
    assert_eq!(sim.get_op_index("osc"), Some(0));
    assert_eq!(sim.get_op_index("none"), None);
    assert_eq!(sim.get_op_index(""), None);
}

#[test]
fn an_operator_that_cannot_be_added_is_told_apart() {
    let mut sim = Simulator::new();
    assert!(!sim.can_add(&DemOp::Sin(Sin::new()), 0));
    let g = sim.add_group("main");
    assert!(sim.can_add(&DemOp::Sin(Sin::new()), g));
    assert!(!sim.can_add(&DemOp::Sin(Sin::new()), g + 1));
    assert!(sim.can_add(&send_to(0), g));
    assert!(!sim.can_add(&send_to(1), g));
    let mut osc = Sin::new();
    // its own output is register 0 once it is added
    assert!(osc.set_input("phase", OpIn::Reg(0), false));
    assert!(sim.can_add(&DemOp::Sin(osc), g));
    let mut osc = Sin::new();
    assert!(osc.set_input("phase", OpIn::Reg(1), false));
    assert!(!sim.can_add(&DemOp::Sin(osc), g));
}

#[test]
fn reading_a_register_that_is_not_there_gives_zero() {
    let mut sim = Simulator::new();
    let g = sim.add_group("main");
    add(&mut sim, DemOp::OutProxy(OutProxy::new(2)), "in", g);
    assert!(sim.set_reg(1, 4.0f32.to_bits()));
    assert_eq!(f32::from_bits(sim.get_reg(1)), 4.0);
    assert_eq!(f32::from_bits(sim.get_reg(0)), 0.0);
    assert_eq!(sim.get_reg(2), ZERO);
    assert_eq!(sim.get_reg(usize::MAX), ZERO);
}

#[test]
fn writing_a_register_that_is_not_there_fails() {
    let mut sim = Simulator::new();
    assert!(!sim.set_reg(0, ONE));
    let g = sim.add_group("main");
    add(&mut sim, DemOp::OutProxy(OutProxy::new(2)), "in", g);
    assert!(sim.set_reg(0, ONE));
    assert!(!sim.set_reg(2, ONE));
    assert_eq!(sim.regs, vec![ONE, ZERO]);
}

#[test]
fn inputs_are_set_through_the_simulator() {
    let mut sim = Simulator::new();
    let g = sim.add_group("main");
    add(&mut sim, DemOp::Sin(Sin::new()), "a", g);
    add(&mut sim, DemOp::Sin(Sin::new()), "b", g);
    assert!(sim.set_op_input(1, "amp", OpIn::Reg(0), false));
    assert!(sim.set_op_input(1, "freq", OpIn::Constant(TWO), true));
    let spec = sim.ops[1].io_spec(1);
    assert_eq!(spec.input_values[0], OpIn::Reg(0));
    assert_eq!(spec.input_values[3], OpIn::Constant(9.1f32.to_bits()));
    assert_eq!(spec.input_defaults[3], OpIn::Constant(TWO));
    assert_eq!(sim.ops[0].io_spec(0), DemOp::Sin(Sin::new()).io_spec(0));
}

#[test]
fn an_input_that_cannot_be_set_changes_nothing() {
    let mut sim = Simulator::new();
    let g = sim.add_group("main");
    add(&mut sim, DemOp::Sin(Sin::new()), "a", g);
    add(&mut sim, send_to(g), "s", g);
    let before = sim.get_specs();
    // no such operator
    assert!(!sim.set_op_input(2, "amp", OpIn::Constant(TWO), false));
    // no such port
    assert!(!sim.set_op_input(0, "vol_l", OpIn::Constant(TWO), false));
    assert!(!sim.set_op_input(1, "amp", OpIn::Constant(TWO), true));
    // a live value that reads a register that is not there
    assert!(!sim.set_op_input(0, "amp", OpIn::Reg(1), false));
    assert!(!sim.set_op_input(1, "vol_l", OpIn::RegMix2(0, 1, HALF), false));
    assert_eq!(sim.get_specs(), before);
    // a default is never resolved and may name any register
    assert!(sim.set_op_input(0, "amp", OpIn::Reg(1), true));
}

#[test]
fn operators_are_ticked_in_the_order_in_which_they_were_added() {
    let mut sim = Simulator::new();
    let g = sim.add_group("main");
    let host = add(&mut sim, DemOp::OutProxy(OutProxy::new(1)), "host", g);
    assert_eq!(host, None);
    let first = add(&mut sim, DemOp::Sin(Sin::new()), "first", g).unwrap();
    let second = add(&mut sim, DemOp::Sin(Sin::new()), "second", g).unwrap();
    // first: 1 * (sin(0 * t + 0) + host) = host
    assert!(sim.set_op_input(1, "freq", OpIn::Constant(ZERO), false));
    assert!(sim.set_op_input(1, "vert", OpIn::Reg(0), false));
    // second: 1 * (sin(0) + 2 * first)
    assert!(sim.set_op_input(2, "freq", OpIn::Constant(ZERO), false));
    assert!(sim.set_op_input(2, "vert", OpIn::RegMul(first, TWO), false));
    sim.exec(0.5f32.to_bits(), None, &bits(&[3.0]), &unit);
    assert_eq!(floats(&sim.regs), vec![3.0, 3.0, 6.0]);
    sim.exec(0.6f32.to_bits(), None, &bits(&[-1.0]), &unit);
    assert_eq!(floats(&sim.regs), vec![-1.0, -1.0, -2.0]);
    assert_eq!(second, 2);
}

#[test]
fn an_operator_reads_a_later_one_as_it_was_after_the_last_tick() {
    let mut sim = Simulator::new();
    let g = sim.add_group("main");
    add(&mut sim, DemOp::Sin(Sin::new()), "reader", g);
    add(&mut sim, DemOp::OutProxy(OutProxy::new(1)), "host", g);
    assert!(sim.set_op_input(0, "freq", OpIn::Constant(ZERO), false));
    assert!(sim.set_op_input(0, "vert", OpIn::Reg(1), false));
    sim.exec(ZERO, None, &bits(&[5.0]), &unit);
    assert_eq!(floats(&sim.regs), vec![0.0, 5.0]);
    sim.exec(ZERO, None, &bits(&[7.0]), &unit);
    assert_eq!(floats(&sim.regs), vec![5.0, 7.0]);
}

#[test]
fn a_tick_keeps_the_gains_of_every_send() {
    let mut sim = Simulator::new();
    let g = sim.add_group("main");
    add(&mut sim, DemOp::OutProxy(OutProxy::new(1)), "host", g);
    add(&mut sim, send_to(g), "send", g);
    assert!(sim.set_op_input(1, "vol_l", OpIn::Reg(0), false));
    sim.exec(ZERO, None, &bits(&[0.75]), &unit);
    match &sim.ops[1] {
        DemOp::AudioSend(send) => {
            assert_eq!(f32::from_bits(send.cur_vol_l), 0.75);
            assert_eq!(f32::from_bits(send.cur_vol_r), 1.0);
        },
        _ => unreachable!(),
    }
}

#[test]
fn the_place_of_the_snapshot_goes_round() {
    let mut sim = Simulator::new();
    let g = sim.add_group("main");
    add(&mut sim, DemOp::OutProxy(OutProxy::new(1)), "host", g);
    for tick in 0..300usize {
        assert_eq!(sim.scope_sample_pos, tick % 128);
        sim.exec(ZERO, None, &bits(&[tick as f32]), &unit);
        assert_eq!(sim.sample_row.pos, tick % 128);
        assert_eq!(floats(&sim.sample_row.values), vec![tick as f32]);
    }
    assert_eq!(sim.scope_sample_pos, 300 % 128);
}

#[test]
fn a_free_consumer_gets_the_snapshot_in_exchange_for_its_own() {
    let mut sim = Simulator::new();
    let g = sim.add_group("main");
    add(&mut sim, DemOp::OutProxy(OutProxy::new(2)), "host", g);
    let mut shown = SampleRow::new();
    shown.pos = 77;
    shown.values = bits(&[9.0]);
    sim.exec(ZERO, Some(&mut shown), &bits(&[1.0, 2.0]), &unit);
    assert_eq!(shown.pos, 0);
    assert_eq!(floats(&shown.values), vec![1.0, 2.0]);
    assert_eq!(sim.sample_row.pos, 77);
    assert_eq!(floats(&sim.sample_row.values), vec![9.0]);
    sim.exec(ZERO, Some(&mut shown), &bits(&[3.0, 4.0]), &unit);
    assert_eq!(shown.pos, 1);
    assert_eq!(floats(&shown.values), vec![3.0, 4.0]);
    assert_eq!(sim.sample_row.pos, 0);
    assert_eq!(floats(&sim.sample_row.values), vec![1.0, 2.0]);
}

#[test]
fn a_held_lock_drops_the_frames_and_never_stops_the_tick() {
    let mut sim = Simulator::new();
    let g = sim.add_group("main");
    add(&mut sim, DemOp::OutProxy(OutProxy::new(1)), "host", g);
    let shared = Arc::new(Mutex::new(SampleRow::new()));
    let held = shared.lock().unwrap();
    for tick in 0..1000usize {
        let mut attempt = shared.try_lock().ok();
        assert!(attempt.is_none());
        sim.exec(ZERO, attempt.as_deref_mut(), &bits(&[tick as f32]), &unit);
        assert_eq!(floats(&sim.regs), vec![tick as f32]);
        // one frame only: the latest
        assert_eq!(floats(&sim.sample_row.values), vec![tick as f32]);
        assert_eq!(sim.sample_row.pos, tick % 128);
    }
    // the consumer saw nothing of it
    assert_eq!(held.pos, 0);
    assert!(held.values.is_empty());
    drop(held);
    let mut attempt = shared.try_lock().ok();
    assert!(attempt.is_some());
    sim.exec(ZERO, attempt.as_deref_mut(), &bits(&[-1.0]), &unit);
    drop(attempt);
    let shown = shared.lock().unwrap();
    assert_eq!(floats(&shown.values), vec![-1.0]);
    assert_eq!(shown.pos, 1000 % 128);
    // what came back in exchange is the consumer's old, empty row
    assert!(sim.sample_row.values.is_empty());
}

#[test]
fn group_buffers_are_made_of_silence() {
    let mut sim = Simulator::new();
    assert_eq!(sim.get_group_sample_buffers(4), Vec::<[Vec<u32>; 2]>::new());
    sim.add_group("a");
    sim.add_group("b");
    let bufs = sim.get_group_sample_buffers(3);
    assert_eq!(bufs.len(), 2);
    for buf in bufs.iter() {
        assert_eq!(floats(&buf[0]), vec![0.0; 3]);
        assert_eq!(floats(&buf[1]), vec![0.0; 3]);
    }
    assert_eq!(sim.get_group_sample_buffers(0), vec![[vec![], vec![]], [vec![], vec![]]]);
}

#[test]
fn rendering_clears_the_block_and_nothing_else() {
    let mut sim = Simulator::new();
    sim.add_group("a");
    sim.add_group("b");
    let mut bufs = vec![
        [bits(&[1.0, 2.0, 3.0, 4.0, 5.0]), bits(&[6.0, 7.0, 8.0, 9.0, 10.0])],
        [bits(&[1.0; 5]), bits(&[2.0; 5])],
    ];
    sim.render(2, 1, &mut bufs, &unit);
    assert_eq!(floats(&bufs[0][0]), vec![1.0, 0.0, 0.0, 4.0, 5.0]);
    assert_eq!(floats(&bufs[0][1]), vec![6.0, 0.0, 0.0, 9.0, 10.0]);
    assert_eq!(floats(&bufs[1][0]), vec![1.0, 0.0, 0.0, 1.0, 1.0]);
    assert_eq!(floats(&bufs[1][1]), vec![2.0, 0.0, 0.0, 2.0, 2.0]);
    sim.render(0, 5, &mut bufs, &unit);
    assert_eq!(floats(&bufs[0][0]), vec![1.0, 0.0, 0.0, 4.0, 5.0]);
}

#[test]
fn a_block_without_a_sound_stays_silent() {
    let mut sim = Simulator::new();
    let a = sim.add_group("a");
    let b = sim.add_group("b");
    add(&mut sim, send_to(b), "a to b", a);
    add(&mut sim, send_to(a), "b to a", b);
    sim.exec(ZERO, None, &[], &unit);
    let mut bufs = sim.get_group_sample_buffers(4);
    bufs[0] = [bits(&[1.0, 2.0, 3.0, 4.0]), bits(&[5.0, 6.0, 7.0, 8.0])];
    sim.render(2, 2, &mut bufs, &unit);
    // what lay in the block is cleared before any send hears it
    assert_eq!(floats(&bufs[0][0]), vec![1.0, 2.0, 0.0, 0.0]);
    assert_eq!(floats(&bufs[0][1]), vec![5.0, 6.0, 0.0, 0.0]);
    assert_eq!(floats(&bufs[1][0]), vec![0.0; 4]);
    assert_eq!(floats(&bufs[1][1]), vec![0.0; 4]);
}

#[test]
fn members_render_in_the_order_of_their_group() {
    let mut sim = Simulator::new();
    let a = sim.add_group("a");
    let b = sim.add_group("b");
    let c = sim.add_group("c");
    add(&mut sim, send_to(b), "a to b", a);
    add(&mut sim, send_to(c), "b to c", b);
    add(&mut sim, DemOp::Sin(Sin::new()), "osc", b);
    add(&mut sim, send_to(c), "b to c again", b);
    assert!(sim.set_op_input(0, "vol_l", OpIn::Constant(TWO), false));
    assert!(sim.set_op_input(1, "vol_r", OpIn::Constant(HALF), false));
    sim.exec(ZERO, None, &[], &unit);
    assert_eq!(sim.render_groups, vec![vec![0], vec![1, 2, 3], vec![]]);
    let mut bufs = sim.get_group_sample_buffers(4);
    bufs[0] = [bits(&[9.0, 9.0, 1.0, 2.0]), bits(&[9.0, 9.0, 3.0, 4.0])];
    // the pass of the simulator over the groups, on a block that holds sound
    for (g, group) in sim.render_groups.iter().enumerate() {
        for m in group.iter() {
            if sim.op_infos[*m].does_render {
                sim.ops[*m].render(2, 2, g, &mut bufs, &unit);
            }
        }
    }
    assert_eq!(floats(&bufs[0][0]), vec![9.0, 9.0, 1.0, 2.0]);
    // a to b: left gain 2, squared
    assert_eq!(floats(&bufs[1][0]), vec![0.0, 0.0, 4.0, 8.0]);
    assert_eq!(floats(&bufs[1][1]), vec![0.0, 0.0, 3.0, 4.0]);
    // b to c, twice: right gain one half, squared, then gain 1
    assert_eq!(floats(&bufs[2][0]), vec![0.0, 0.0, 8.0, 16.0]);
    assert_eq!(floats(&bufs[2][1]), vec![0.0, 0.0, 3.75, 5.0]);
}

#[test]
fn two_sends_add_up_in_one_buffer() {
    let mut sim = Simulator::new();
    let a = sim.add_group("a");
    let b = sim.add_group("b");
    add(&mut sim, send_to(b), "one", a);
    add(&mut sim, send_to(b), "two", a);
    assert!(sim.set_op_input(0, "vol_l", OpIn::Constant(HALF), false));
    assert!(sim.set_op_input(0, "vol_r", OpIn::Constant(HALF), false));
    sim.exec(ZERO, None, &[], &unit);
    let mut bufs = sim.get_group_sample_buffers(2);
    sim.render(2, 0, &mut bufs, &unit);
    bufs[0] = [bits(&[1.0, 1.0]), bits(&[1.0, 1.0])];
    for i in sim.render_groups[0].clone() {
        sim.ops[i].render(2, 0, 0, &mut bufs, &unit);
    }
    assert_eq!(floats(&bufs[1][0]), vec![1.25, 1.25]);
    assert_eq!(floats(&bufs[1][1]), vec![1.25, 1.25]);
}

#[test]
fn specs_list_every_operator_with_its_place() {
    let mut sim = Simulator::new();
    let g = sim.add_group("main");
    add(&mut sim, DemOp::OutProxy(OutProxy::new(2)), "host", g);
    add(&mut sim, DemOp::Sin(Sin::new()), "osc", g);
    let specs = sim.get_specs();
    assert_eq!(specs.len(), 2);
    assert_eq!(specs[0].0, sim.ops[0].io_spec(0));
    assert_eq!(specs[1].0, sim.ops[1].io_spec(1));
    assert_eq!(specs[1].0.index, 1);
    assert_eq!(specs[1].0.output_regs, vec![2]);
    assert_eq!(specs[0].1, sim.op_infos[0]);
    assert_eq!(specs[1].1, sim.op_infos[1]);
    assert_eq!(Simulator::new().get_specs(), vec![]);
}

#[test]
fn inputs_are_saved_under_the_names_of_the_operators() {
    let mut sim = Simulator::new();
    let g = sim.add_group("main");
    add(&mut sim, DemOp::OutProxy(OutProxy::new(1)), "host", g);
    add(&mut sim, send_to(g), "send", g);
    assert!(sim.set_op_input(1, "vol_r", OpIn::Reg(0), false));
    assert!(sim.set_op_input(1, "vol_l", OpIn::Constant(TWO), true));
    assert_eq!(
        sim.serialize_inputs(),
        vec![
            ("host".to_string(), vec![]),
            (
                "send".to_string(),
                vec![
                    ("vol_l".to_string(), OpIn::Constant(ONE)),
                    ("vol_r".to_string(), OpIn::Reg(0)),
                ]
            ),
        ]
    );
}

#[test]
fn saved_inputs_are_loaded_by_name() {
    let mut sim = Simulator::new();
    let g = sim.add_group("main");
    add(&mut sim, DemOp::Sin(Sin::new()), "a", g);
    add(&mut sim, DemOp::Sin(Sin::new()), "b", g);
    assert!(sim.set_op_input(0, "amp", OpIn::Reg(1), false));
    assert!(sim.set_op_input(1, "phase", OpIn::RegAdd(0, HALF), false));
    let saved = sim.serialize_inputs();
    assert!(sim.set_op_input(0, "amp", OpIn::Constant(ZERO), false));
    assert!(sim.set_op_input(1, "phase", OpIn::Constant(ZERO), false));
    assert!(sim.set_op_input(1, "vert", OpIn::Constant(TWO), true));
    sim.deserialize_inputs(saved.clone());
    assert_eq!(sim.serialize_inputs(), saved);
    assert_eq!(sim.ops[1].io_spec(1).input_defaults[2], OpIn::Constant(TWO));
}

#[test]
fn loading_passes_over_what_it_cannot_place() {
    let mut sim = Simulator::new();
    let g = sim.add_group("main");
    add(&mut sim, DemOp::Sin(Sin::new()), "osc", g);
    add(&mut sim, DemOp::Sin(Sin::new()), "osc", g);
    let untouched = sim.ops[1].io_spec(1);
    sim.deserialize_inputs(vec![
        ("nobody".to_string(), vec![("amp".to_string(), OpIn::Constant(TWO))]),
        (
            "osc".to_string(),
            vec![
                ("amp".to_string(), OpIn::Reg(2)),
                ("gain".to_string(), OpIn::Constant(TWO)),
                ("vert".to_string(), OpIn::Reg(1)),
                ("freq".to_string(), OpIn::RegMix2(0, 5, HALF)),
            ],
        ),
    ]);
    let spec = sim.ops[0].io_spec(0);
    assert_eq!(
        spec.input_values,
        vec![
            OpIn::Constant(ONE),
            OpIn::Constant(ZERO),
            OpIn::Reg(1),
            OpIn::Constant(9.1f32.to_bits()),
        ]
    );
    // the second operator of the same name is not reached
    assert_eq!(sim.ops[1].io_spec(1), untouched);
    sim.exec(ZERO, None, &[], &unit);
}

#[test]
fn debug_registers_resolve_in_the_order_of_the_list() {
    let mut watch = DebugRegisters::new();
    assert_eq!(watch.show(&[], &unit), Vec::<u32>::new());
    watch.add("first".to_string(), OpIn::Reg(1));
    watch.add("sum".to_string(), OpIn::RegAdd(0, 0.5f32.to_bits()));
    watch.add("fixed".to_string(), OpIn::Constant(TWO));
    assert_eq!(watch.debug_regs[1], ("sum".to_string(), OpIn::RegAdd(0, 0.5f32.to_bits())));
    assert_eq!(floats(&watch.show(&bits(&[1.0, 4.0]), &unit)), vec![4.0, 1.5, 2.0]);
}

#[test]
fn a_snapshot_takes_the_registers_as_they_are() {
    let mut row = SampleRow::new();
    row.read_from_regs(&bits(&[1.0, 2.0, 3.0]), 5);
    assert_eq!(row.pos, 5);
    assert_eq!(floats(&row.values), vec![1.0, 2.0, 3.0]);
    row.read_from_regs(&bits(&[4.0]), 6);
    assert_eq!(row.pos, 6);
    assert_eq!(floats(&row.values), vec![4.0]);
}
