//! A modular signal-processing engine: operators read and write a shared bank
//! of registers once per control tick and mix audio blocks into per-group
//! stereo buffers.
//!
//! Every number is a single-precision value carried as its IEEE-754 bit
//! pattern in a `u32`. The engine fixes which operations are applied to which
//! operands, and in which order; carrying them out is left to an arithmetic
//! unit that the caller hands in (see [`arith`]).

pub mod arith;
pub mod buffer;
pub mod debug_registers;
pub mod dem_op;
pub mod group;
pub mod laws;
pub mod op_in;
pub mod ops;
pub mod port;
pub mod protocol;
pub mod sample_row;
pub mod simulator;
pub mod text;

pub use arith::Arith;
pub use debug_registers::DebugRegisters;
pub use dem_op::DemOp;
pub use group::{OpGroup, OpInfo};
pub use op_in::OpIn;
pub use ops::{AudioSend, OutProxy, Sin};
pub use port::{DemOpIOSpec, DemOpPort};
pub use protocol::{SimulatorUIEvent, SimulatorUIInput};
pub use sample_row::SampleRow;
pub use simulator::{SavedInputs, Simulator};
