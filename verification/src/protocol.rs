//! The messages between a controller and the simulator, and what the
//! simulator does on each request.
//!
//! The controller never touches the simulator. It sends requests, which the
//! simulator takes one at a time between two ticks, and reads the answers.
//! Requests are handled in the order in which they were sent, and answers
//! come in the order of their requests.

use vstd::prelude::*;
use crate::group::OpInfo;
use crate::op_in::OpIn;
use crate::port::DemOpIOSpec;
use crate::simulator::{loaded, saved, SavedInputs, Simulator};

verus! {

/// A request of the controller.
#[derive(Debug, PartialEq, Clone)]
pub enum SimulatorUIInput {
    /// Asks for the description of every operator. Answered by
    /// `OpSpecUpdate`.
    Refresh,
    /// Sets the input port of the given name on the operator of the given
    /// index: the default if the flag is set, else the live value. Answered
    /// only where the input was not set, by `InputRejected`.
    SetOpInput(usize, String, OpIn, bool),
    /// Asks for the saved inputs. Answered by `SerializedInputValues`.
    SaveInputs,
    /// Loads saved inputs. Not answered.
    LoadInputs(SavedInputs),
}

/// An answer of the simulator.
#[derive(Debug, PartialEq, Clone)]
pub enum SimulatorUIEvent {
    /// The description of every operator with what was noted of it.
    OpSpecUpdate(Vec<(DemOpIOSpec, OpInfo)>),
    /// The saved inputs.
    SerializedInputValues(SavedInputs),
    /// The input port of the given name on the operator of the given index
    /// was not set, and the simulator is as it was before the request.
    InputRejected(usize, String),
}

impl Simulator {
    /// Handles one request and gives the answer to send back, if the
    /// request has one.
    ///
    /// `Refresh` and `SaveInputs` leave the simulator as it is. No request
    /// touches the registers, the groups or the snapshot.
    pub fn handle_ui_message(&mut self, msg: SimulatorUIInput) -> (reply: Option<SimulatorUIEvent>)
        requires
            old(self).wf(),
        ensures
            final(self).wf(),
            final(self).ops@.len() == old(self).ops@.len(),
            final(self).regs@ == old(self).regs@,
            final(self).op_infos@ == old(self).op_infos@,
            final(self).op_groups@ == old(self).op_groups@,
            final(self).render_groups@ == old(self).render_groups@,
            final(self).sample_row == old(self).sample_row,
            final(self).scope_sample_len == old(self).scope_sample_len,
            final(self).scope_sample_pos == old(self).scope_sample_pos,
            match msg {
                SimulatorUIInput::Refresh => {
                    &&& final(self).ops@ == old(self).ops@
                    &&& reply matches Some(SimulatorUIEvent::OpSpecUpdate(specs))
                    &&& specs@.len() == old(self).ops@.len()
                    &&& forall|i: int|
                        0 <= i < specs@.len() ==> (#[trigger] specs@[i]).0@ == old(
                            self,
                        ).ops@[i].describe(i as usize) && specs@[i].1 == old(self).op_infos@[i]
                },
                SimulatorUIInput::SetOpInput(idx, name, to, as_default) => {
                    if old(self).takes_input(idx, name@, to, as_default) {
                        &&& final(self).ops@ == old(self).ops@.update(
                            idx as int,
                            old(self).ops@[idx as int].with_input(name@, to, as_default),
                        )
                        &&& reply is None
                    } else {
                        &&& final(self).ops@ == old(self).ops@
                        &&& reply == Some(SimulatorUIEvent::InputRejected(idx, name))
                    }
                },
                SimulatorUIInput::SaveInputs => {
                    &&& final(self).ops@ == old(self).ops@
                    &&& reply matches Some(SimulatorUIEvent::SerializedInputValues(state))
                    &&& saved(state@) == old(self).exported()
                },
                SimulatorUIInput::LoadInputs(state) => {
                    &&& final(self).ops@ == loaded(
                        old(self).ops@,
                        old(self).op_infos@,
                        saved(state@),
                        old(self).regs@.len() as int,
                    )
                    &&& reply is None
                },
            },
    {
        match msg {
            SimulatorUIInput::SetOpInput(idx, in_name, op_in, def) => {
                if self.set_op_input(idx, in_name.as_str(), op_in, def) {
                    None
                } else {
                    Some(SimulatorUIEvent::InputRejected(idx, in_name))
                }
            },
            SimulatorUIInput::Refresh => Some(SimulatorUIEvent::OpSpecUpdate(self.get_specs())),
            SimulatorUIInput::LoadInputs(inputs) => {
                self.deserialize_inputs(inputs);
                None
            },
            SimulatorUIInput::SaveInputs => Some(
                SimulatorUIEvent::SerializedInputValues(self.serialize_inputs()),
            ),
        }
    }
}

} // verus!
