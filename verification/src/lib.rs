//! A verified simulator for a small 15-bit virtual CPU.
//!
//! The machine executes a fixed 22-opcode instruction set against a unified
//! model of literals, registers and RAM, with a growable call stack. The
//! mathematical semantics live in [`isa`], the executable machine in [`vm`],
//! general laws about the semantics in [`laws`], and the line-oriented driver
//! logic in [`solver`].

pub mod isa;
pub mod laws;
pub mod solver;
pub mod vm;
