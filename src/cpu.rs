//! Architectural registers and machine configuration.
use vstd::prelude::*;

verus! {

/// Number of numbered general-purpose registers: `R0` up to `R30`.
pub const GENERAL_ARG_REG_CNT: u16 = 31;

/// Stack pointer.
pub const SP: u16 = 31;

/// Frame pointer.
pub const FP: u16 = 32;

/// Link register.
pub const LR: u16 = 33;

/// Program counter.
pub const PC: u16 = 34;

/// Condition-flags register.
pub const CPSR: u16 = 35;

/// Sizes of the simulated machine's memory structures.
#[derive(Clone, Copy, Debug)]
pub struct CPUConfig {
    /// Number of words in the flat memory array.
    pub memory_size: u32,
    /// Number of stores the store buffer can hold before it applies backpressure.
    pub sb_capacity: u16,
    /// Number of buffered stores committed to memory per cycle.
    pub sb_drain_per_cycle: u16,
}

} // verus!
