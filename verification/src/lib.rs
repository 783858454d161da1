//! A toy processor in the CHIP-8 tradition: 4096 bytes of memory, sixteen
//! 8-bit registers, a call stack of sixteen return addresses, and four
//! instructions (halt, return, call, add with carry).
//!
//! * [`cpu`] holds the executable processor, [`cpu::CPU`].
//! * [`machine`] holds its mathematical model, [`machine::Machine`]: the
//!   contracts of the processor say that it does what the model does.
//! * [`instruction`] holds the instruction format and its decoder.
//! * [`fault`] holds the faults that the processor reports.
//! * [`theorems`] holds what is proved of the model: how additions carry, how
//!   calls and returns pair up, when the call stack overflows or underflows,
//!   and which instruction words are unsupported.

pub mod cpu;
pub mod fault;
pub mod instruction;
pub mod machine;
pub mod theorems;
