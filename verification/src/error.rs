//! The errors that stop a program. None is recovered from.

use crate::integer::{decimal, Integer};
use vstd::prelude::*;

verus! {

/// An instruction that cannot be carried out.
#[derive(Debug, Clone, Copy, PartialEq, Eq, Structural)]
pub enum RuntimeError {
    /// A value was taken from a stack that holds too few.
    StackUnderflow,
    /// The instruction is unknown or not implemented, lacks an immediate,
    /// or met an operand that it cannot work on.
    InvalidInstruction,
}

/// A call that the called function refuses.
#[derive(Debug, Clone, Copy, PartialEq, Eq, Structural)]
pub enum FunctionCallError {
    /// The call hands over fewer arguments than the function needs, or more
    /// than it takes.
    InvalidNumberOfArguments { expected: usize, got: usize },
    /// A built-in function got an argument that it cannot work on.
    InvalidArgument,
}

/// Any error that ends a run.
#[derive(Debug, Clone, Copy, PartialEq, Eq, Structural)]
pub enum Error {
    /// An instruction failed.
    Runtime(RuntimeError),
    /// A call failed.
    Call(FunctionCallError),
}

/// The message of a runtime error.
pub open spec fn runtime_message(e: RuntimeError) -> Seq<char> {
    match e {
        RuntimeError::StackUnderflow => "Stack underflow"@,
        RuntimeError::InvalidInstruction => "Invalid instruction"@,
    }
}

/// The message of a call error.
pub open spec fn call_message(e: FunctionCallError) -> Seq<char> {
    match e {
        FunctionCallError::InvalidNumberOfArguments { expected, got } => {
            "Invalid number of arguments: expected "@ + decimal(expected as int) + ", got "@
                + decimal(got as int)
        },
        FunctionCallError::InvalidArgument => "Invalid argument"@,
    }
}

impl RuntimeError {
    /// The message of the error.
    pub fn message(&self) -> (r: String)
        ensures
            r@ == runtime_message(*self),
    {
        match self {
            RuntimeError::StackUnderflow => String::from_str("Stack underflow"),
            RuntimeError::InvalidInstruction => String::from_str("Invalid instruction"),
        }
    }
}

impl FunctionCallError {
    /// The message of the error.
    pub fn message(&self) -> (r: String)
        ensures
            r@ == call_message(*self),
    {
        match self {
            FunctionCallError::InvalidNumberOfArguments { expected, got } => {
                let mut out = String::from_str("Invalid number of arguments: expected ");
                out.append(Integer::from_u64(*expected as u64).to_decimal().as_str());
                out.append(", got ");
                out.append(Integer::from_u64(*got as u64).to_decimal().as_str());
                out
            },
            FunctionCallError::InvalidArgument => String::from_str("Invalid argument"),
        }
    }
}

impl Error {
    /// The message of the error.
    pub fn message(&self) -> (r: String)
        ensures
            r@ == match *self {
                Error::Runtime(e) => runtime_message(e),
                Error::Call(e) => call_message(e),
            },
    {
        match self {
            Error::Runtime(e) => e.message(),
            Error::Call(e) => e.message(),
        }
    }
}

} // verus!
