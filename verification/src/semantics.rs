//! What running a program means: the state of the machine, and the step that
//! each opcode takes from one state to the next.

use crate::comparison::Comparison;
use crate::error::{Error, RuntimeError};
use crate::function::{call_model, CallModel, FunctionModel};
use crate::instruction::{bits_value, msb_first_value};
use crate::integer::{truncated_quotient, truncated_remainder, Integer};
use crate::opcode::{decode, BinaryOperator, Opcode};
use crate::stack_value::{cell_value, compare_cells, plain_value, StackValueModel};
use crate::text::byte_char;
use crate::value::{truthiness, ValueModel};
use vstd::arithmetic::power::pow;
use vstd::prelude::*;

verus! {

/// The state of the machine: the evaluation stack with its top last, the
/// variable store, and the index of the next instruction.
pub struct State {
    pub stack: Seq<StackValueModel>,
    pub memory: Map<nat, ValueModel>,
    pub ptr: nat,
}

/// What a step asks of the world around the machine.
pub enum EffectModel {
    /// Nothing: the next step may follow.
    Continue,
    /// The text is to be written to the standard output.
    Write(Seq<char>),
    /// A line is to be read from the standard input and handed to the
    /// machine, which takes it for the value that the call returned.
    ReadLine,
    /// The program is over: no instruction is left.
    Halt,
}

/// How a step ends: with the next state and an effect, or with an error.
pub type Outcome = Result<(State, EffectModel), Error>;

/// The error of an instruction that cannot be carried out.
pub open spec fn invalid() -> Error {
    Error::Runtime(RuntimeError::InvalidInstruction)
}

/// The error of taking from a stack that holds too little.
pub open spec fn underflow() -> Error {
    Error::Runtime(RuntimeError::StackUnderflow)
}

/// A plain cell.
pub open spec fn plain(v: ValueModel) -> StackValueModel {
    StackValueModel::Value(v)
}

/// The instruction that lies `k` places behind the one at `ptr`.
pub open spec fn immediate(s: State, program: Seq<Seq<bool>>, k: int) -> Seq<bool>
    recommends
        s.ptr + k < program.len(),
{
    program[s.ptr + k]
}

/// The step that leaves a new stack and moves on by some instructions.
pub open spec fn next(s: State, stack: Seq<StackValueModel>, by: nat) -> Outcome {
    Ok((State { stack, memory: s.memory, ptr: s.ptr + by }, EffectModel::Continue))
}

/// The step that leaves a new stack and goes on at the instruction that the
/// immediate names. It fails without the immediate, and where the target is
/// no machine index.
pub open spec fn jump(s: State, stack: Seq<StackValueModel>, program: Seq<Seq<bool>>) -> Outcome {
    if s.ptr + 1 >= program.len() {
        Err(invalid())
    } else if bits_value(immediate(s, program, 1)) > usize::MAX {
        Err(invalid())
    } else {
        Ok(
            (
                State { stack, memory: s.memory, ptr: bits_value(immediate(s, program, 1)) },
                EffectModel::Continue,
            ),
        )
    }
}

/// Push a copy of the top cell.
pub open spec fn duplicate(s: State) -> Outcome {
    if s.stack.len() == 0 {
        Err(underflow())
    } else {
        next(s, s.stack.push(s.stack.last()), 1)
    }
}

/// Drop the top cell.
pub open spec fn pop(s: State) -> Outcome {
    if s.stack.len() == 0 {
        Err(underflow())
    } else {
        next(s, s.stack.drop_last(), 1)
    }
}

/// Push an integer. The first immediate gives the sign with its first bit,
/// set for a positive number; the second is the magnitude.
pub open spec fn push_integer(s: State, program: Seq<Seq<bool>>) -> Outcome {
    if s.ptr + 2 >= program.len() {
        Err(invalid())
    } else if immediate(s, program, 1).len() == 0 {
        Err(invalid())
    } else {
        let magnitude = bits_value(immediate(s, program, 2)) as int;
        let value = if immediate(s, program, 1)[0] {
            magnitude
        } else {
            -magnitude
        };
        next(s, s.stack.push(plain(ValueModel::Integer(value))), 3)
    }
}

/// Store the top value, plain or marked as an argument, in the variable that
/// the immediate names.
pub open spec fn pop_to_variable(s: State, program: Seq<Seq<bool>>) -> Outcome {
    if s.ptr + 1 >= program.len() {
        Err(invalid())
    } else if s.stack.len() == 0 {
        Err(underflow())
    } else {
        match plain_value(s.stack.last()) {
            Some(v) => Ok(
                (
                    State {
                        stack: s.stack.drop_last(),
                        memory: s.memory.insert(bits_value(immediate(s, program, 1)), v),
                        ptr: s.ptr + 2,
                    },
                    EffectModel::Continue,
                ),
            ),
            None => Err(invalid()),
        }
    }
}

/// Push the value of the variable that the immediate names.
pub open spec fn push_variable(s: State, program: Seq<Seq<bool>>) -> Outcome {
    if s.ptr + 1 >= program.len() {
        Err(invalid())
    } else if !s.memory.contains_key(bits_value(immediate(s, program, 1))) {
        Err(invalid())
    } else {
        next(s, s.stack.push(plain(s.memory[bits_value(immediate(s, program, 1))])), 2)
    }
}

/// Whether `count` instructions from `start` on are there and have eight
/// bits each.
pub open spec fn bytes_present(program: Seq<Seq<bool>>, start: nat, count: nat) -> bool {
    &&& start + count <= program.len()
    &&& forall|i: int| start <= i < start + count ==> (#[trigger] program[i]).len() == 8
}

/// The text whose characters have, as code points, the bytes that `count`
/// instructions from `start` on denote, most significant bit first.
pub open spec fn bytes_text(program: Seq<Seq<bool>>, start: nat, count: nat) -> Seq<char> {
    Seq::new(count, |i: int| byte_char(msb_first_value(program[start + i]) as u8))
}

/// Push a string. The first immediate is its length, and as many
/// instructions of eight bits follow, one for each character.
pub open spec fn push_string(s: State, program: Seq<Seq<bool>>) -> Outcome {
    if s.ptr + 1 >= program.len() {
        Err(invalid())
    } else {
        let count = bits_value(immediate(s, program, 1));
        if bytes_present(program, s.ptr + 2, count) {
            next(
                s,
                s.stack.push(plain(ValueModel::String(bytes_text(program, s.ptr + 2, count)))),
                2 + count,
            )
        } else {
            Err(invalid())
        }
    }
}

/// What a call takes from the stack.
pub struct Gathered {
    /// The function that is called.
    pub function: FunctionModel,
    /// The positional arguments, the deepest first.
    pub args: Seq<ValueModel>,
    /// The optional arguments by their keys.
    pub optionals: Map<nat, ValueModel>,
    /// The stack below the function.
    pub rest: Seq<StackValueModel>,
}

/// Takes cells from the top of the stack until a plain function comes.
/// A plain value and a value marked as an argument go to the front of the
/// positional arguments; an optional argument goes into the map under its
/// key, in place of one taken before. `None` where the stack runs out.
pub open spec fn gather(
    stack: Seq<StackValueModel>,
    args: Seq<ValueModel>,
    optionals: Map<nat, ValueModel>,
) -> Option<Gathered>
    decreases stack.len(),
{
    if stack.len() == 0 {
        None
    } else {
        match stack.last() {
            StackValueModel::Value(ValueModel::Function(function)) => Some(
                Gathered { function, args, optionals, rest: stack.drop_last() },
            ),
            StackValueModel::Value(v) => gather(stack.drop_last(), seq![v] + args, optionals),
            StackValueModel::Argument(v) => gather(stack.drop_last(), seq![v] + args, optionals),
            StackValueModel::Optional(k, v) => gather(
                stack.drop_last(),
                args,
                optionals.insert(k, v),
            ),
        }
    }
}

/// Call the function that lies below its arguments, and push what it
/// returns, if anything.
pub open spec fn call(s: State) -> Outcome {
    match gather(s.stack, Seq::empty(), Map::empty()) {
        None => Err(underflow()),
        Some(g) => match call_model(g.function, g.args, g.optionals) {
            Err(e) => Err(e),
            Ok(CallModel::Return(None)) => next(s, g.rest, 1),
            Ok(CallModel::Return(Some(v))) => next(s, g.rest.push(plain(v)), 1),
            Ok(CallModel::Print(text)) => Ok(
                (
                    State { stack: g.rest, memory: s.memory, ptr: s.ptr + 1 },
                    EffectModel::Write(text),
                ),
            ),
            Ok(CallModel::ReadLine) => Ok(
                (State { stack: g.rest, memory: s.memory, ptr: s.ptr + 1 }, EffectModel::ReadLine),
            ),
        },
    }
}

/// Mark the top value, which must be plain, as a positional argument.
pub open spec fn make_argument(s: State) -> Outcome {
    if s.stack.len() == 0 {
        Err(underflow())
    } else {
        match s.stack.last() {
            StackValueModel::Value(v) => next(
                s,
                s.stack.drop_last().push(StackValueModel::Argument(v)),
                1,
            ),
            _ => Err(invalid()),
        }
    }
}

/// Mark the top value, plain or marked as an argument, as the optional
/// argument whose key the immediate gives.
pub open spec fn make_optional(s: State, program: Seq<Seq<bool>>) -> Outcome {
    if s.stack.len() == 0 {
        Err(underflow())
    } else if s.ptr + 1 >= program.len() {
        Err(invalid())
    } else {
        match plain_value(s.stack.last()) {
            Some(v) => next(
                s,
                s.stack.drop_last().push(
                    StackValueModel::Optional(bits_value(immediate(s, program, 1)), v),
                ),
                2,
            ),
            None => Err(invalid()),
        }
    }
}

/// Take the two top cells, compare the upper with the lower, and push
/// whether the outcome is the one selected.
pub open spec fn compare(selected: Comparison, s: State) -> Outcome {
    if s.stack.len() < 2 {
        Err(underflow())
    } else {
        match compare_cells(s.stack[s.stack.len() - 1], s.stack[s.stack.len() - 2]) {
            Some(found) => next(
                s,
                s.stack.take(s.stack.len() - 2).push(plain(ValueModel::Boolean(found == selected))),
                1,
            ),
            None => Err(invalid()),
        }
    }
}

/// The item of an array at an index, or the code point of the character of
/// a string at an index, as an integer; `None` outside the container and for
/// any other value.
pub open spec fn indexed(container: ValueModel, index: int) -> Option<ValueModel> {
    match container {
        ValueModel::Array(items) => if 0 <= index < items.len() {
            Some(items[index])
        } else {
            None
        },
        ValueModel::String(text) => if 0 <= index < text.len() {
            Some(ValueModel::Integer(text[index] as u32 as int))
        } else {
            None
        },
        _ => None,
    }
}

/// Take the index from the top, leave the container below it, and push what
/// the container holds at the index. Both cells must be plain.
pub open spec fn index(s: State) -> Outcome {
    if s.stack.len() < 2 {
        Err(underflow())
    } else {
        match (s.stack[s.stack.len() - 2], s.stack[s.stack.len() - 1]) {
            (
                StackValueModel::Value(container),
                StackValueModel::Value(ValueModel::Integer(at)),
            ) => match indexed(container, at) {
                Some(v) => next(s, s.stack.drop_last().push(plain(v)), 1),
                None => Err(invalid()),
            },
            _ => Err(invalid()),
        }
    }
}

/// Delete the variable that the immediate names.
pub open spec fn remove_variable(s: State, program: Seq<Seq<bool>>) -> Outcome {
    if s.ptr + 1 >= program.len() {
        Err(invalid())
    } else {
        Ok(
            (
                State {
                    stack: s.stack,
                    memory: s.memory.remove(bits_value(immediate(s, program, 1))),
                    ptr: s.ptr + 2,
                },
                EffectModel::Continue,
            ),
        )
    }
}

/// Take the top value, plain or marked as an argument, as a boolean. If it
/// is the one selected, jump to the instruction that the immediate names;
/// if not, pass over the immediate.
pub open spec fn jump_if(selected: bool, s: State, program: Seq<Seq<bool>>) -> Outcome {
    if s.stack.len() == 0 {
        Err(underflow())
    } else {
        match plain_value(s.stack.last()) {
            Some(v) => match truthiness(v) {
                Some(found) => if found == selected {
                    jump(s, s.stack.drop_last(), program)
                } else {
                    next(s, s.stack.drop_last(), 2)
                },
                None => Err(invalid()),
            },
            None => Err(invalid()),
        }
    }
}

/// The cells that spreading an array pushes: its items as plain cells, the
/// last item first, so that the first item comes to lie on top.
pub open spec fn spread_cells(items: Seq<ValueModel>) -> Seq<StackValueModel> {
    Seq::new(items.len(), |i: int| plain(items[items.len() - 1 - i]))
}

/// Replace the plain array on top by its items.
pub open spec fn spread(s: State) -> Outcome {
    if s.stack.len() == 0 {
        Err(underflow())
    } else {
        match s.stack.last() {
            StackValueModel::Value(ValueModel::Array(items)) => next(
                s,
                s.stack.drop_last() + spread_cells(items),
                1,
            ),
            _ => Err(invalid()),
        }
    }
}

/// The negative of a value: of an integer, or of a boolean counted as 0 or 1.
pub open spec fn negated(v: ValueModel) -> Option<ValueModel> {
    match v {
        ValueModel::Boolean(b) => Some(
            ValueModel::Integer(
                if b {
                    -1
                } else {
                    0
                },
            ),
        ),
        ValueModel::Integer(i) => Some(ValueModel::Integer(-i)),
        _ => None,
    }
}

/// The complement of a value: the other boolean, or the integer with every
/// bit of its two's complement form flipped.
pub open spec fn complemented(v: ValueModel) -> Option<ValueModel> {
    match v {
        ValueModel::Boolean(b) => Some(ValueModel::Boolean(!b)),
        ValueModel::Integer(i) => Some(ValueModel::Integer(-i - 1)),
        _ => None,
    }
}

/// Replace the value on top, whatever its mark, by what an operation makes
/// of it.
pub open spec fn unary(result: Option<ValueModel>, s: State) -> Outcome {
    if s.stack.len() == 0 {
        Err(underflow())
    } else {
        match result {
            Some(v) => next(s, s.stack.drop_last().push(plain(v)), 1),
            None => Err(invalid()),
        }
    }
}

/// The number that a value counts as in arithmetic: an integer, or 0 and 1
/// for the booleans.
pub open spec fn operand(v: ValueModel) -> Option<int> {
    match v {
        ValueModel::Boolean(b) => Some(
            if b {
                1int
            } else {
                0int
            },
        ),
        ValueModel::Integer(i) => Some(i),
        _ => None,
    }
}

/// The result of an operation on two numbers. Division and remainder round
/// towards zero and have no result for a zero divisor; a power has none
/// where [`Integer::power_defined`] does not hold.
pub open spec fn arithmetic(operator: BinaryOperator, a: int, b: int) -> Option<int> {
    match operator {
        BinaryOperator::Add => Some(a + b),
        BinaryOperator::Subtract => Some(a - b),
        BinaryOperator::Multiply => Some(a * b),
        BinaryOperator::Divide => if b == 0 {
            None
        } else {
            Some(truncated_quotient(a, b))
        },
        BinaryOperator::Remainder => if b == 0 {
            None
        } else {
            Some(truncated_remainder(a, b))
        },
        BinaryOperator::Power => if Integer::power_defined(a, b) {
            Some(pow(a, b as nat))
        } else {
            None
        },
    }
}

/// Take the two top values, whatever their marks, and push the result of
/// the operation with the upper value on the left.
pub open spec fn binary(operator: BinaryOperator, s: State) -> Outcome {
    if s.stack.len() < 2 {
        Err(underflow())
    } else {
        match (
            operand(cell_value(s.stack[s.stack.len() - 1])),
            operand(cell_value(s.stack[s.stack.len() - 2])),
        ) {
            (Some(a), Some(b)) => match arithmetic(operator, a, b) {
                Some(result) => next(
                    s,
                    s.stack.take(s.stack.len() - 2).push(plain(ValueModel::Integer(result))),
                    1,
                ),
                None => Err(invalid()),
            },
            _ => Err(invalid()),
        }
    }
}

/// Exchange two cells. The immediates count them from the top, which is
/// number 0.
pub open spec fn swap(s: State, program: Seq<Seq<bool>>) -> Outcome {
    if s.ptr + 2 >= program.len() {
        Err(invalid())
    } else {
        let a = bits_value(immediate(s, program, 1));
        let b = bits_value(immediate(s, program, 2));
        if a >= s.stack.len() || b >= s.stack.len() {
            Err(invalid())
        } else {
            let i = s.stack.len() - 1 - a;
            let j = s.stack.len() - 1 - b;
            next(s, s.stack.update(i, s.stack[j]).update(j, s.stack[i]), 3)
        }
    }
}

/// The step that an opcode takes.
pub open spec fn execute(opcode: Opcode, s: State, program: Seq<Seq<bool>>) -> Outcome {
    match opcode {
        Opcode::Nop => next(s, s.stack, 1),
        Opcode::Duplicate => duplicate(s),
        Opcode::Pop => pop(s),
        Opcode::PushInteger => push_integer(s, program),
        Opcode::PopToVariable => pop_to_variable(s, program),
        Opcode::PushVariable => push_variable(s, program),
        Opcode::PushString => push_string(s, program),
        Opcode::PushFloat => Err(invalid()),
        Opcode::Call => call(s),
        Opcode::MakeArgument => make_argument(s),
        Opcode::MakeOptional => make_optional(s, program),
        Opcode::Jump => jump(s, s.stack, program),
        Opcode::Compare(selected) => compare(selected, s),
        Opcode::Index => index(s),
        Opcode::RemoveVariable => remove_variable(s, program),
        Opcode::JumpIf(selected) => jump_if(selected, s, program),
        Opcode::PushBoolean(b) => next(s, s.stack.push(plain(ValueModel::Boolean(b))), 1),
        Opcode::PushArray => next(s, s.stack.push(plain(ValueModel::Array(Seq::empty()))), 1),
        Opcode::Spread => spread(s),
        Opcode::Negate => unary(
            if s.stack.len() > 0 {
                negated(cell_value(s.stack.last()))
            } else {
                None
            },
            s,
        ),
        Opcode::Not => unary(
            if s.stack.len() > 0 {
                complemented(cell_value(s.stack.last()))
            } else {
                None
            },
            s,
        ),
        Opcode::Binary(operator) => binary(operator, s),
        Opcode::Swap => swap(s, program),
    }
}

/// One step of the machine: past the end of the program it halts; else it
/// carries out the instruction at `ptr`, which fails if its bits select no
/// opcode.
pub open spec fn step(s: State, program: Seq<Seq<bool>>) -> Outcome {
    if s.ptr >= program.len() {
        Ok((s, EffectModel::Halt))
    } else {
        match decode(program[s.ptr as int]) {
            Some(opcode) => execute(opcode, s, program),
            None => Err(invalid()),
        }
    }
}

/// Why a run stops.
#[derive(Debug, Clone, Copy, PartialEq, Eq, Structural)]
pub enum Pause {
    /// No instruction is left.
    Finished,
    /// The program waits for a line of input.
    AwaitingLine,
    /// The run has taken as many steps as it was allowed.
    OutOfSteps,
}

/// What a run comes to: the state in which it stops, the text that it wrote,
/// and why it stopped.
pub struct Run {
    pub state: State,
    pub output: Seq<char>,
    pub end: Result<Pause, Error>,
}

/// Runs a program from a state for `limit` steps at most. The run stops
/// when the program is over, when a step fails, when a step asks for a line
/// of input, and when the steps are used up. After a failure the state is
/// the one in which the failing step began.
pub open spec fn run(s: State, program: Seq<Seq<bool>>, limit: nat) -> Run
    decreases limit,
{
    if s.ptr >= program.len() {
        Run { state: s, output: Seq::empty(), end: Ok(Pause::Finished) }
    } else if limit == 0 {
        Run { state: s, output: Seq::empty(), end: Ok(Pause::OutOfSteps) }
    } else {
        match step(s, program) {
            Err(e) => Run { state: s, output: Seq::empty(), end: Err(e) },
            Ok((after, EffectModel::ReadLine)) => Run {
                state: after,
                output: Seq::empty(),
                end: Ok(Pause::AwaitingLine),
            },
            Ok((after, EffectModel::Write(text))) => {
                let rest = run(after, program, (limit - 1) as nat);
                Run { state: rest.state, output: text + rest.output, end: rest.end }
            },
            Ok((after, _)) => run(after, program, (limit - 1) as nat),
        }
    }
}

} // verus!
