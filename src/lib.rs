//! A register/stack-hybrid bytecode virtual machine: tagged operands, a
//! decoder from raw bytes to an instruction stream, and an execution engine
//! with its own heap allocator, operand stack, register file and call stack.
//!
//! - `types`, `ops`: the tag and opcode vocabularies.
//! - `bytes`: tagged operands, instruction streams and their serialised forms.
//! - `memory`: the first-fit heap and the fixed-capacity stack.
//! - `regs`, `stdio`: the register file and the I/O queues.
//! - `engine`: the step semantics (`step_spec`) and the machine that meets it.
//! - `render`, `disasm`: text listings and the disassembler.
pub mod bytes;
pub mod disasm;
pub mod engine;
pub mod memory;
pub mod ops;
pub mod regs;
pub mod render;
pub mod stdio;
pub mod types;
