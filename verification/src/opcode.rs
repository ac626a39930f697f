//! Opcodes: what the bits of an instruction ask the machine to do.

use crate::comparison::Comparison;
use crate::instruction::Instruction;
use vstd::prelude::*;

verus! {

/// An operation on two numbers.
#[derive(Debug, Clone, Copy, PartialEq, Eq, Structural)]
pub enum BinaryOperator {
    Add,
    Subtract,
    Multiply,
    Divide,
    Remainder,
    Power,
}

/// What an instruction asks for. The length of the instruction and its bits
/// select the opcode; some opcodes take the instructions behind them as
/// immediates.
#[derive(Debug, Clone, Copy, PartialEq, Eq, Structural)]
pub enum Opcode {
    /// Do nothing.
    Nop,
    /// Push a copy of the top cell.
    Duplicate,
    /// Drop the top cell.
    Pop,
    /// Push the integer whose sign and magnitude are the next two
    /// instructions.
    PushInteger,
    /// Store the top value in the variable that the next instruction names.
    PopToVariable,
    /// Push the value of the variable that the next instruction names.
    PushVariable,
    /// Push the string whose length is the next instruction and whose bytes
    /// are the instructions behind that.
    PushString,
    /// Push a floating-point number; not implemented.
    PushFloat,
    /// Call the function that lies below its arguments.
    Call,
    /// Mark the top value as a positional argument.
    MakeArgument,
    /// Mark the top value as the optional argument whose key is the next
    /// instruction.
    MakeOptional,
    /// Go on at the instruction that the next instruction names.
    Jump,
    /// Compare the two top cells and push whether the outcome is the one
    /// selected.
    Compare(Comparison),
    /// Push the item of an array, or the character of a string, at an index.
    Index,
    /// Delete the variable that the next instruction names.
    RemoveVariable,
    /// Jump if the top value, as a boolean, is the one selected.
    JumpIf(bool),
    /// Push a boolean.
    PushBoolean(bool),
    /// Push an empty array.
    PushArray,
    /// Replace the array on top by its items, the first on top.
    Spread,
    /// Negate the top value.
    Negate,
    /// Complement the top value.
    Not,
    /// Combine the two top values.
    Binary(BinaryOperator),
    /// Exchange two cells, counted from the top by the next two
    /// instructions.
    Swap,
}

/// The opcode of an instruction of two bits.
pub open spec fn decode_pair(b0: bool, b1: bool) -> Opcode {
    if !b0 && !b1 {
        Opcode::PushInteger
    } else if !b0 {
        Opcode::PopToVariable
    } else if !b1 {
        Opcode::PushVariable
    } else {
        Opcode::PushString
    }
}

/// The opcode of an instruction of three bits.
pub open spec fn decode_triple(b0: bool, b1: bool, b2: bool) -> Opcode {
    if !b0 {
        if !b1 {
            if !b2 {
                Opcode::PushFloat
            } else {
                Opcode::Call
            }
        } else if !b2 {
            Opcode::MakeArgument
        } else {
            Opcode::MakeOptional
        }
    } else if !b1 {
        if !b2 {
            Opcode::Jump
        } else {
            Opcode::Compare(Comparison::Less)
        }
    } else if !b2 {
        Opcode::Compare(Comparison::Equal)
    } else {
        Opcode::Compare(Comparison::Greater)
    }
}

/// The opcode of an instruction of four bits.
pub open spec fn decode_quad(b0: bool, b1: bool, b2: bool, b3: bool) -> Opcode {
    if !b0 {
        if !b1 {
            if b2 {
                Opcode::JumpIf(b3)
            } else if !b3 {
                Opcode::Index
            } else {
                Opcode::RemoveVariable
            }
        } else if !b2 {
            Opcode::PushBoolean(b3)
        } else if !b3 {
            Opcode::PushArray
        } else {
            Opcode::Spread
        }
    } else if b1 && b2 {
        if !b3 {
            Opcode::Negate
        } else {
            Opcode::Not
        }
    } else {
        Opcode::Binary(
            if !b1 {
                if !b2 {
                    if !b3 {
                        BinaryOperator::Add
                    } else {
                        BinaryOperator::Subtract
                    }
                } else if !b3 {
                    BinaryOperator::Multiply
                } else {
                    BinaryOperator::Divide
                }
            } else if !b3 {
                BinaryOperator::Remainder
            } else {
                BinaryOperator::Power
            },
        )
    }
}

/// The opcode that a bit string selects, or `None` where it selects none:
/// five bits other than five zeros, and every string of six bits or more.
pub open spec fn decode(bits: Seq<bool>) -> Option<Opcode> {
    if bits.len() == 0 {
        Some(Opcode::Nop)
    } else if bits.len() == 1 {
        Some(
            if bits[0] {
                Opcode::Pop
            } else {
                Opcode::Duplicate
            },
        )
    } else if bits.len() == 2 {
        Some(decode_pair(bits[0], bits[1]))
    } else if bits.len() == 3 {
        Some(decode_triple(bits[0], bits[1], bits[2]))
    } else if bits.len() == 4 {
        Some(decode_quad(bits[0], bits[1], bits[2], bits[3]))
    } else if bits.len() == 5 && !bits[0] && !bits[1] && !bits[2] && !bits[3] && !bits[4] {
        Some(Opcode::Swap)
    } else {
        None
    }
}

impl Opcode {
    /// The opcode of an instruction of two bits.
    fn of_pair(b0: bool, b1: bool) -> (r: Opcode)
        ensures
            r == decode_pair(b0, b1),
    {
        if !b0 && !b1 {
            Opcode::PushInteger
        } else if !b0 {
            Opcode::PopToVariable
        } else if !b1 {
            Opcode::PushVariable
        } else {
            Opcode::PushString
        }
    }

    /// The opcode of an instruction of three bits.
    fn of_triple(b0: bool, b1: bool, b2: bool) -> (r: Opcode)
        ensures
            r == decode_triple(b0, b1, b2),
    {
        match (b0, b1, b2) {
            (false, false, false) => Opcode::PushFloat,
            (false, false, true) => Opcode::Call,
            (false, true, false) => Opcode::MakeArgument,
            (false, true, true) => Opcode::MakeOptional,
            (true, false, false) => Opcode::Jump,
            (true, false, true) => Opcode::Compare(Comparison::Less),
            (true, true, false) => Opcode::Compare(Comparison::Equal),
            (true, true, true) => Opcode::Compare(Comparison::Greater),
        }
    }

    /// The opcode of an instruction of four bits.
    fn of_quad(b0: bool, b1: bool, b2: bool, b3: bool) -> (r: Opcode)
        ensures
            r == decode_quad(b0, b1, b2, b3),
    {
        match (b0, b1, b2) {
            (false, false, false) => if b3 {
                Opcode::RemoveVariable
            } else {
                Opcode::Index
            },
            (false, false, true) => Opcode::JumpIf(b3),
            (false, true, false) => Opcode::PushBoolean(b3),
            (false, true, true) => if b3 {
                Opcode::Spread
            } else {
                Opcode::PushArray
            },
            (true, false, false) => Opcode::Binary(
                if b3 {
                    BinaryOperator::Subtract
                } else {
                    BinaryOperator::Add
                },
            ),
            (true, false, true) => Opcode::Binary(
                if b3 {
                    BinaryOperator::Divide
                } else {
                    BinaryOperator::Multiply
                },
            ),
            (true, true, false) => Opcode::Binary(
                if b3 {
                    BinaryOperator::Power
                } else {
                    BinaryOperator::Remainder
                },
            ),
            (true, true, true) => if b3 {
                Opcode::Not
            } else {
                Opcode::Negate
            },
        }
    }

    /// The opcode that an instruction selects, as [`decode`] describes it.
    pub fn decode(instruction: &Instruction) -> (r: Option<Opcode>)
        ensures
            r == decode(instruction@),
    {
        let n = instruction.len();
        if n == 0 {
            Some(Opcode::Nop)
        } else if n == 1 {
            Some(
                if instruction.index(0) {
                    Opcode::Pop
                } else {
                    Opcode::Duplicate
                },
            )
        } else if n == 2 {
            Some(Opcode::of_pair(instruction.index(0), instruction.index(1)))
        } else if n == 3 {
            Some(
                Opcode::of_triple(instruction.index(0), instruction.index(1), instruction.index(2)),
            )
        } else if n == 4 {
            Some(
                Opcode::of_quad(
                    instruction.index(0),
                    instruction.index(1),
                    instruction.index(2),
                    instruction.index(3),
                ),
            )
        } else if n == 5 && !instruction.index(0) && !instruction.index(1) && !instruction.index(2)
            && !instruction.index(3) && !instruction.index(4) {
            Some(Opcode::Swap)
        } else {
            None
        }
    }
}

} // verus!
