//! Instruction-processing core of an ARM7TDMI-class CPU: an ARM decoder, a
//! three-stage fetch/decode/execute pipeline and an executor, over a flat
//! region-mapped memory.
pub mod bits;
pub mod cpu;
pub mod execute;
pub mod instruction;
pub mod memory;

pub use cpu::{Cpu, CpuState, Flags, Register};
pub use memory::Memory;
