//! A stack machine whose program text is a path: every opcode and every
//! immediate is a run of `.` (bit 0) and `..` (bit 1) tokens separated by `/`.
//!
//! The crate holds the instruction decoder, the value model with
//! arbitrary-precision integers, the variable store, the call protocol of the
//! built-in functions and the interpreter itself. Every function states its
//! behaviour over mathematical models (`int`, `nat`, `Seq`, `Map`), and Verus
//! checks the code against those statements.
//!
//! - [`program`] reads a program text into [`instruction`]s, and [`opcode`]
//!   tells what each of them asks for.
//! - [`semantics`] says what a step and a run of the machine are, and
//!   [`interpreter`] is the machine that takes them.
//! - [`value`], [`stack_value`], [`function`] and [`memory`] are what the
//!   machine works on; [`natural`] and [`integer`] are its numbers, which
//!   `num_bigint` computes.
//! - [`laws`] holds what is proved of all programs.
//!
//! The machine itself neither reads nor writes: a step hands out the text
//! that the program prints, and says when the program wants a line of input.

pub mod comparison;
pub mod error;
pub mod function;
pub mod instruction;
pub mod integer;
pub mod interpreter;
pub mod laws;
pub mod memory;
pub mod natural;
pub mod opcode;
pub mod program;
pub mod semantics;
pub mod stack_value;
pub mod text;
pub mod value;
