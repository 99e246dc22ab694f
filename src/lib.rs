//! A cycle-level model of a small load/store CPU: the instruction model with its
//! per-opcode operand tables, the instruction queue that decouples pipeline stages,
//! and the memory subsystem with its store buffer.
pub mod cpu;
pub mod instr_queue;
pub mod instructions;
pub mod memory_subsystem;
pub mod render;
pub mod store_buffer;
pub mod text;
