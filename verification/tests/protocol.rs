use signal_ops::arith::{HALF, ONE, TWO};
use signal_ops::{
    AudioSend, DemOp, OpIn, OutProxy, Simulator, SimulatorUIEvent, SimulatorUIInput, Sin,
};

fn engine() -> Simulator {
    let mut sim = Simulator::new();
    let g = sim.add_group("main");
    for (op, name) in [
        (DemOp::OutProxy(OutProxy::new(2)), "host"),
        (DemOp::Sin(Sin::new()), "osc"),
        (DemOp::AudioSend(AudioSend::new()), "send"),
    ] {
        assert!(sim.can_add(&op, g));
        sim.add_op(op, name.to_string(), g);
    }
    sim
}

#[test]
fn refresh_is_answered_with_every_spec() {
    let mut sim = engine();
    let reply = sim.handle_ui_message(SimulatorUIInput::Refresh);
    assert_eq!(reply, Some(SimulatorUIEvent::OpSpecUpdate(sim.get_specs())));
    match reply {
        Some(SimulatorUIEvent::OpSpecUpdate(specs)) => {
            assert_eq!(specs.len(), 3);
            assert_eq!(specs[1].0.index, 1);
            assert_eq!(specs[1].0.output_regs, vec![2]);
            assert_eq!(specs[2].1.name, "send");
            assert!(specs[2].1.does_render);
        },
        _ => unreachable!(),
    }
}

#[test]
fn setting_an_input_is_not_answered() {
    let mut sim = engine();
    let reply = sim.handle_ui_message(SimulatorUIInput::SetOpInput(
        1,
        "amp".to_string(),
        OpIn::Reg(0),
        false,
    ));
    assert_eq!(reply, None);
    assert_eq!(sim.ops[1].io_spec(1).input_values[0], OpIn::Reg(0));
    let reply = sim.handle_ui_message(SimulatorUIInput::SetOpInput(
        2,
        "vol_l".to_string(),
        OpIn::Constant(TWO),
        true,
    ));
    assert_eq!(reply, None);
    assert_eq!(sim.ops[2].io_spec(2).input_defaults[0], OpIn::Constant(TWO));
    assert_eq!(sim.ops[2].io_spec(2).input_values[0], OpIn::Constant(ONE));
}

#[test]
fn an_input_that_is_not_set_is_reported_and_nothing_stops() {
    let mut sim = engine();
    let before = sim.get_specs();
    for (idx, name, to) in [
        (1usize, "volume", OpIn::Constant(TWO)),
        (3, "amp", OpIn::Constant(TWO)),
        (0, "out0", OpIn::Constant(TWO)),
        (1, "amp", OpIn::Reg(3)),
    ] {
        let reply = sim.handle_ui_message(SimulatorUIInput::SetOpInput(
            idx,
            name.to_string(),
            to,
            false,
        ));
        assert_eq!(reply, Some(SimulatorUIEvent::InputRejected(idx, name.to_string())));
        assert_eq!(sim.get_specs(), before);
    }
    // the simulator goes on serving requests
    assert_eq!(
        sim.handle_ui_message(SimulatorUIInput::SetOpInput(
            1,
            "amp".to_string(),
            OpIn::Constant(HALF),
            false
        )),
        None
    );
}

#[test]
fn saving_is_answered_with_the_inputs() {
    let mut sim = engine();
    assert!(sim.set_op_input(2, "vol_r", OpIn::Reg(1), false));
    let reply = sim.handle_ui_message(SimulatorUIInput::SaveInputs);
    assert_eq!(reply, Some(SimulatorUIEvent::SerializedInputValues(sim.serialize_inputs())));
    match reply {
        Some(SimulatorUIEvent::SerializedInputValues(state)) => {
            assert_eq!(state.len(), 3);
            assert_eq!(state[0], ("host".to_string(), vec![]));
            assert_eq!(
                state[2],
                (
                    "send".to_string(),
                    vec![
                        ("vol_l".to_string(), OpIn::Constant(ONE)),
                        ("vol_r".to_string(), OpIn::Reg(1)),
                    ]
                )
            );
        },
        _ => unreachable!(),
    }
}

#[test]
fn loading_is_not_answered_and_brings_the_inputs_back() {
    let mut sim = engine();
    assert!(sim.set_op_input(1, "freq", OpIn::Constant(TWO), false));
    let state = sim.serialize_inputs();
    assert!(sim.set_op_input(1, "freq", OpIn::Constant(HALF), false));
    assert!(sim.set_op_input(2, "vol_l", OpIn::Reg(2), false));
    let reply = sim.handle_ui_message(SimulatorUIInput::LoadInputs(state.clone()));
    assert_eq!(reply, None);
    assert_eq!(sim.serialize_inputs(), state);
}

#[test]
fn requests_leave_registers_and_groups_alone() {
    let mut sim = engine();
    assert!(sim.set_reg(0, ONE));
    let regs = sim.regs.clone();
    let infos = sim.op_infos.clone();
    let members = sim.render_groups.clone();
    for msg in [
        SimulatorUIInput::Refresh,
        SimulatorUIInput::SaveInputs,
        SimulatorUIInput::SetOpInput(1, "amp".to_string(), OpIn::Reg(0), false),
        SimulatorUIInput::SetOpInput(9, "amp".to_string(), OpIn::Reg(0), false),
        SimulatorUIInput::LoadInputs(vec![]),
    ] {
        sim.handle_ui_message(msg);
        assert_eq!(sim.regs, regs);
        assert_eq!(sim.op_infos, infos);
        assert_eq!(sim.render_groups, members);
        assert_eq!(sim.scope_sample_pos, 0);
    }
}
