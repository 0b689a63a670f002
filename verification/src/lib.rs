//! A verified interpreter for a compact, stack-based form of WebAssembly code.
//!
//! * [`value`], [`error`], [`opcode`] and [`module`] hold the data of a program.
//! * [`int_ops`] and [`fp_ops`] are the arithmetic of the instruction set.
//! * [`memory`], [`frame`], [`native`] and [`runtime`] are the parts of a running machine.
//! * [`semantics`] and [`machine`] say, as mathematics, what an instruction and a run do.
//! * [`instructions`] and [`executor`] carry that out.
//! * [`laws`] states what follows for programs as a whole, and its modules what each
//!   instruction, call and start of a machine is for.
pub mod error;
pub mod executor;
pub mod fp_ops;
pub mod frame;
pub mod instructions;
pub mod int_ops;
pub mod laws;
pub mod machine;
pub mod memory;
pub mod module;
pub mod native;
pub mod opcode;
pub mod runtime;
pub mod semantics;
pub mod value;
