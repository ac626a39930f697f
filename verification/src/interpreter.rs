//! The machine that runs a program, one instruction at a time.
//!
//! The machine neither writes nor reads. A step that calls `Print` hands
//! the text out, and a step that calls `ReadLn` reports that a line is
//! wanted: the caller does both and gives the line back with
//! [`Interpreter::provide_line`].

use crate::comparison::Comparison;
use crate::error::{Error, RuntimeError};
use crate::function::CallOutcome;
use crate::instruction::{bits_value, Instruction};
use crate::integer::Integer;
use crate::memory::{initial_memory, Memory, Table};
use crate::opcode::{BinaryOperator, Opcode};
use crate::program::program_model;
use crate::semantics::{
    arithmetic, binary, bytes_present, bytes_text, call, compare, complemented, duplicate,
    execute, gather, immediate, index, indexed, invalid, jump, jump_if, make_argument,
    make_optional, negated, operand, plain, pop, pop_to_variable, push_integer,
    push_string, push_variable, remove_variable, run, spread, spread_cells, step, swap, unary,
    underflow, EffectModel, Outcome, Pause, State,
};
use crate::stack_value::{cell_value, stack_models, StackValue};
use crate::text::{chars_of, push_char};
use crate::value::{lemma_array_model, value_models, Value, ValueModel};
use std::collections::VecDeque;
use vstd::prelude::*;

verus! {

/// The machine: the evaluation stack, the variable store and the index of
/// the next instruction.
#[derive(Debug)]
pub struct Interpreter {
    stack: Vec<StackValue>,
    memory: Memory,
    ptr: usize,
}

impl View for Interpreter {
    type V = State;

    closed spec fn view(&self) -> State {
        State { stack: stack_models(self.stack@), memory: self.memory@, ptr: self.ptr as nat }
    }
}

/// What a step asks of its caller.
#[derive(Debug)]
pub enum Effect {
    /// Nothing: the next step may follow.
    Continue,
    /// The text is to be written to the standard output.
    Write(String),
    /// A line is to be read from the standard input and handed over with
    /// [`Interpreter::provide_line`].
    ReadLine,
    /// The program is over.
    Halt,
}

impl View for Effect {
    type V = EffectModel;

    open spec fn view(&self) -> EffectModel {
        match self {
            Effect::Continue => EffectModel::Continue,
            Effect::Write(text) => EffectModel::Write(text@),
            Effect::ReadLine => EffectModel::ReadLine,
            Effect::Halt => EffectModel::Halt,
        }
    }
}

/// What a failed step leaves of the state in which it began: the variables
/// and `ptr` as they were, and of the stack the lower part, up to the cells
/// that the step took before it failed.
pub open spec fn left_of(after: State, before: State) -> bool {
    &&& after.memory == before.memory
    &&& after.ptr == before.ptr
    &&& after.stack.is_prefix_of(before.stack)
}

/// Whether the result of a step, and the state that it leaves, are what the
/// model says of a step from the state `before`.
pub open spec fn step_matches(
    r: Result<Effect, Error>,
    before: State,
    after: State,
    model: Outcome,
) -> bool {
    match model {
        Ok((state, effect)) => r matches Ok(e) && e@ == effect && after == state,
        Err(e) => r matches Err(x) && x == e && left_of(after, before),
    }
}

/// The error of an instruction that cannot be carried out.
fn invalid_instruction() -> (r: Error)
    ensures
        r == invalid(),
{
    Error::Runtime(RuntimeError::InvalidInstruction)
}

/// The error of taking from a stack that holds too little.
fn stack_underflow() -> (r: Error)
    ensures
        r == underflow(),
{
    Error::Runtime(RuntimeError::StackUnderflow)
}

/// The number that a value counts as in arithmetic.
fn operand_of(v: &Value) -> (r: Option<Integer>)
    ensures
        match r {
            Some(i) => operand(v@) == Some(i@),
            None => operand(v@) is None,
        },
{
    match v {
        Value::Boolean(b) => Some(Integer::from_bool(*b)),
        Value::Integer(i) => Some(i.clone()),
        _ => None,
    }
}

/// The result of an operation on two numbers.
fn compute(operator: BinaryOperator, a: &Integer, b: &Integer) -> (r: Option<Integer>)
    ensures
        match r {
            Some(i) => arithmetic(operator, a@, b@) == Some(i@),
            None => arithmetic(operator, a@, b@) is None,
        },
{
    match operator {
        BinaryOperator::Add => Some(a.sum(b)),
        BinaryOperator::Subtract => Some(a.difference(b)),
        BinaryOperator::Multiply => Some(a.product(b)),
        BinaryOperator::Divide => a.quotient(b),
        BinaryOperator::Remainder => a.remainder(b),
        BinaryOperator::Power => a.power(b),
    }
}

/// What a container holds at an index.
fn item_at(container: &Value, at: &Integer) -> (r: Option<Value>)
    ensures
        r matches Some(v) ==> indexed(container@, at@) == Some(v@),
        r is None ==> indexed(container@, at@) is None,
{
    match container {
        Value::Array(items) => {
            proof {
                lemma_array_model(*items);
                assert(value_models(items@).len() == items.len());
            }
            let place = at.to_usize();
            if place.is_some() && place.unwrap() < items.len() {
                let i = place.unwrap();
                let r = items[i].clone();
                proof {
                    assert(value_models(items@)[i as int] == items@[i as int]@);
                }
                Some(r)
            } else {
                None
            }
        },
        Value::String(text) => {
            let chars = chars_of(text.as_str());
            let count = chars.len();
            let place = at.to_usize();
            if place.is_some() && place.unwrap() < count {
                let i = place.unwrap();
                let code: u32 = chars[i] as u32;
                Some(Value::Integer(Integer::from_u64(code as u64)))
            } else {
                None
            }
        },
        _ => None,
    }
}

impl Interpreter {
    /// A machine before the first step: the stack empty, the built-in
    /// functions in the store, the first instruction next.
    pub fn new() -> (r: Interpreter)
        ensures
            r@ == (State { stack: Seq::empty(), memory: initial_memory(), ptr: 0 }),
    {
        let r = Interpreter { stack: Vec::new(), memory: Memory::new(), ptr: 0 };
        proof {
            assert(stack_models(r.stack@) =~= Seq::empty());
        }
        r
    }

    /// The evaluation stack, the top last.
    pub fn stack(&self) -> (r: &Vec<StackValue>)
        ensures
            stack_models(r@) == self@.stack,
    {
        &self.stack
    }

    /// The variable store.
    pub fn memory(&self) -> (r: &Memory)
        ensures
            r@ == self@.memory,
    {
        &self.memory
    }

    /// The index of the next instruction.
    pub fn ptr(&self) -> (r: usize)
        ensures
            r == self@.ptr,
    {
        self.ptr
    }

    /// Hands the machine the line that a call of `ReadLn` asked for: the
    /// line is pushed as the string that the call returned.
    pub fn provide_line(&mut self, line: String)
        ensures
            final(self)@ == (State {
                stack: old(self)@.stack.push(plain(ValueModel::String(line@))),
                ..old(self)@
            }),
    {
        self.push(StackValue::Value(Value::String(line)));
    }

    /// Puts a cell on the stack.
    fn push(&mut self, cell: StackValue)
        ensures
            final(self)@ == (State { stack: old(self)@.stack.push(cell@), ..old(self)@ }),
    {
        proof {
            assert(stack_models(self.stack@.push(cell)) =~= stack_models(self.stack@).push(cell@));
        }
        self.stack.push(cell);
    }

    /// Takes the top cell off the stack, if there is one.
    fn pop(&mut self) -> (r: Option<StackValue>)
        ensures
            match r {
                Some(cell) => {
                    &&& old(self)@.stack.len() > 0
                    &&& cell@ == old(self)@.stack.last()
                    &&& final(self)@ == (State {
                        stack: old(self)@.stack.drop_last(),
                        ..old(self)@
                    })
                },
                None => old(self)@.stack.len() == 0 && final(self)@ == old(self)@,
            },
    {
        let ghost before = self.stack@;
        let r = self.stack.pop();
        proof {
            if r is Some {
                assert(stack_models(self.stack@) =~= stack_models(before).drop_last());
            }
        }
        r
    }

    /// Moves on by some instructions.
    fn advance(&mut self, by: usize)
        requires
            old(self)@.ptr + by <= usize::MAX,
        ensures
            final(self)@ == (State { ptr: old(self)@.ptr + by as nat, ..old(self)@ }),
    {
        self.ptr = self.ptr + by;
    }

    /// The instruction that lies `k` places behind the one at `ptr`, if the
    /// program reaches that far.
    fn immediate<'a>(&self, program: &'a Vec<Instruction>, k: usize) -> (r: Option<
        &'a Instruction,
    >)
        requires
            self@.ptr < program.len(),
        ensures
            match r {
                Some(i) => self@.ptr + k < program.len() && i@ == immediate(
                    self@,
                    program_model(program@),
                    k as int,
                ),
                None => self@.ptr + k >= program.len(),
            },
    {
        if k < program.len() - self.ptr {
            Some(&program[self.ptr + k])
        } else {
            None
        }
    }

    /// Goes on at the instruction that the immediate names.
    fn go_to(&mut self, program: &Vec<Instruction>) -> (r: Result<Effect, Error>)
        requires
            old(self)@.ptr < program.len(),
        ensures
            step_matches(
                r,
                old(self)@,
                final(self)@,
                jump(old(self)@, old(self)@.stack, program_model(program@)),
            ),
    {
        match self.immediate(program, 1) {
            None => Err(invalid_instruction()),
            Some(target) => match target.to_usize() {
                None => Err(invalid_instruction()),
                Some(at) => {
                    self.ptr = at;
                    Ok(Effect::Continue)
                },
            },
        }
    }

    /// Pushes a copy of the top cell.
    fn do_duplicate(&mut self) -> (r: Result<Effect, Error>)
        requires
            old(self)@.ptr < usize::MAX,
        ensures
            step_matches(r, old(self)@, final(self)@, duplicate(old(self)@)),
    {
        if self.stack.len() == 0 {
            return Err(stack_underflow());
        }
        let copy = self.stack[self.stack.len() - 1].clone();
        self.push(copy);
        self.advance(1);
        Ok(Effect::Continue)
    }

    /// Drops the top cell.
    fn do_pop(&mut self) -> (r: Result<Effect, Error>)
        requires
            old(self)@.ptr < usize::MAX,
        ensures
            step_matches(r, old(self)@, final(self)@, pop(old(self)@)),
    {
        match self.pop() {
            None => Err(stack_underflow()),
            Some(_) => {
                self.advance(1);
                Ok(Effect::Continue)
            },
        }
    }

    /// Pushes the integer whose sign and magnitude are the two immediates.
    fn do_push_integer(&mut self, program: &Vec<Instruction>) -> (r: Result<Effect, Error>)
        requires
            old(self)@.ptr < program.len(),
        ensures
            step_matches(
                r,
                old(self)@,
                final(self)@,
                push_integer(old(self)@, program_model(program@)),
            ),
    {
        let magnitude = match self.immediate(program, 2) {
            Some(i) => Integer::from_natural(&i.to_natural()),
            None => {
                return Err(invalid_instruction());
            },
        };
        let positive = match self.immediate(program, 1) {
            Some(i) => match i.to_bool() {
                Some(b) => b,
                None => {
                    return Err(invalid_instruction());
                },
            },
            None => {
                return Err(invalid_instruction());
            },
        };
        let value = if positive {
            magnitude
        } else {
            magnitude.negated()
        };
        self.push(StackValue::Value(Value::Integer(value)));
        self.advance(3);
        Ok(Effect::Continue)
    }

    /// Stores the top value in the variable that the immediate names.
    fn do_pop_to_variable(&mut self, program: &Vec<Instruction>) -> (r: Result<Effect, Error>)
        requires
            old(self)@.ptr < program.len(),
        ensures
            step_matches(
                r,
                old(self)@,
                final(self)@,
                pop_to_variable(old(self)@, program_model(program@)),
            ),
    {
        let index = match self.immediate(program, 1) {
            Some(i) => i.to_natural(),
            None => {
                return Err(invalid_instruction());
            },
        };
        let cell = match self.pop() {
            Some(cell) => cell,
            None => {
                return Err(stack_underflow());
            },
        };
        match cell.into_plain() {
            Some(value) => {
                self.memory.set(index, value);
                self.advance(2);
                Ok(Effect::Continue)
            },
            None => Err(invalid_instruction()),
        }
    }

    /// Pushes the value of the variable that the immediate names.
    fn do_push_variable(&mut self, program: &Vec<Instruction>) -> (r: Result<Effect, Error>)
        requires
            old(self)@.ptr < program.len(),
        ensures
            step_matches(
                r,
                old(self)@,
                final(self)@,
                push_variable(old(self)@, program_model(program@)),
            ),
    {
        let index = match self.immediate(program, 1) {
            Some(i) => i.to_natural(),
            None => {
                return Err(invalid_instruction());
            },
        };
        let value = match self.memory.get(index) {
            Some(v) => v.clone(),
            None => {
                return Err(invalid_instruction());
            },
        };
        self.push(StackValue::Value(value));
        self.advance(2);
        Ok(Effect::Continue)
    }

    /// Pushes the string whose length is the immediate and whose bytes follow.
    fn do_push_string(&mut self, program: &Vec<Instruction>) -> (r: Result<Effect, Error>)
        requires
            old(self)@.ptr < program.len(),
        ensures
            step_matches(
                r,
                old(self)@,
                final(self)@,
                push_string(old(self)@, program_model(program@)),
            ),
    {
        let ghost model = program_model(program@);
        let count = match self.immediate(program, 1) {
            Some(i) => match i.to_usize() {
                Some(n) => n,
                None => {
                    return Err(invalid_instruction());
                },
            },
            None => {
                return Err(invalid_instruction());
            },
        };
        let start: usize = self.ptr + 2;
        let mut text = String::new();
        let mut done: usize = 0;
        while done < count
            invariant
                done <= count,
                model == program_model(program@),
                self@ == old(self)@,
                self@.ptr + 1 < model.len(),
                count == bits_value(immediate(self@, model, 1)),
                start == self.ptr + 2,
                start <= program.len(),
                start + done <= program.len(),
                bytes_present(model, start as nat, done as nat),
                text@ == bytes_text(model, start as nat, done as nat),
            decreases count - done,
        {
            if done >= program.len() - start {
                proof {
                    assert(!bytes_present(model, start as nat, count as nat));
                }
                return Err(invalid_instruction());
            }
            match program[start + done].to_byte() {
                Some(byte) => {
                    push_char(&mut text, byte as char);
                    proof {
                        assert(bytes_text(model, start as nat, (done + 1) as nat) =~= bytes_text(
                            model,
                            start as nat,
                            done as nat,
                        ).push(byte as char));
                    }
                },
                None => {
                    proof {
                        assert(model[start + done].len() != 8);
                        assert(!bytes_present(model, start as nat, count as nat));
                    }
                    return Err(invalid_instruction());
                },
            }
            done += 1;
        }
        self.push(StackValue::Value(Value::String(text)));
        self.ptr = start + count;
        Ok(Effect::Continue)
    }

    /// Calls the function that lies below its arguments.
    fn do_call(&mut self) -> (r: Result<Effect, Error>)
        requires
            old(self)@.ptr < usize::MAX,
        ensures
            step_matches(r, old(self)@, final(self)@, call(old(self)@)),
    {
        let mut args: VecDeque<Value> = VecDeque::new();
        let mut optionals = Table::new();
        let ghost goal = gather(self@.stack, Seq::empty(), Map::empty());
        proof {
            assert(value_models(args@) =~= Seq::empty());
        }
        loop
            invariant
                self@.memory == old(self)@.memory,
                self@.ptr == old(self)@.ptr,
                self@.ptr < usize::MAX,
                self@.stack.is_prefix_of(old(self)@.stack),
                goal == gather(old(self)@.stack, Seq::empty(), Map::empty()),
                goal == gather(self@.stack, value_models(args@), optionals@),
            decreases self@.stack.len(),
        {
            let ghost before = value_models(args@);
            proof {
                if self@.stack.len() > 0 {
                    let whole = old(self)@.stack;
                    let lower = self@.stack.drop_last();
                    assert(lower =~= whole.subrange(0, lower.len() as int));
                }
            }
            match self.pop() {
                None => {
                    return Err(stack_underflow());
                },
                Some(StackValue::Value(Value::Function(function))) => {
                    return match function.call(args, optionals) {
                        Err(e) => Err(e),
                        Ok(CallOutcome::Return(None)) => {
                            self.advance(1);
                            Ok(Effect::Continue)
                        },
                        Ok(CallOutcome::Return(Some(value))) => {
                            self.push(StackValue::Value(value));
                            self.advance(1);
                            Ok(Effect::Continue)
                        },
                        Ok(CallOutcome::Print(text)) => {
                            self.advance(1);
                            Ok(Effect::Write(text))
                        },
                        Ok(CallOutcome::ReadLine) => {
                            self.advance(1);
                            Ok(Effect::ReadLine)
                        },
                    };
                },
                Some(StackValue::Value(value)) => {
                    proof {
                        assert(value_models(seq![value] + args@) =~= seq![value@] + before);
                    }
                    args.push_front(value);
                },
                Some(StackValue::Argument(value)) => {
                    proof {
                        assert(value_models(seq![value] + args@) =~= seq![value@] + before);
                    }
                    args.push_front(value);
                },
                Some(StackValue::Optional(key, value)) => {
                    optionals.insert(key, value);
                },
            }
        }
    }

    /// Marks the top value as a positional argument.
    fn do_make_argument(&mut self) -> (r: Result<Effect, Error>)
        requires
            old(self)@.ptr < usize::MAX,
        ensures
            step_matches(r, old(self)@, final(self)@, make_argument(old(self)@)),
    {
        match self.pop() {
            None => Err(stack_underflow()),
            Some(StackValue::Value(value)) => {
                self.push(StackValue::Argument(value));
                self.advance(1);
                Ok(Effect::Continue)
            },
            Some(_) => Err(invalid_instruction()),
        }
    }

    /// Marks the top value as the optional argument whose key is the immediate.
    fn do_make_optional(&mut self, program: &Vec<Instruction>) -> (r: Result<Effect, Error>)
        requires
            old(self)@.ptr < program.len(),
        ensures
            step_matches(
                r,
                old(self)@,
                final(self)@,
                make_optional(old(self)@, program_model(program@)),
            ),
    {
        let cell = match self.pop() {
            Some(cell) => cell,
            None => {
                return Err(stack_underflow());
            },
        };
        let key = match self.immediate(program, 1) {
            Some(i) => i.to_natural(),
            None => {
                return Err(invalid_instruction());
            },
        };
        match cell.into_plain() {
            Some(value) => {
                self.push(StackValue::Optional(key, value));
                self.advance(2);
                Ok(Effect::Continue)
            },
            None => Err(invalid_instruction()),
        }
    }

    /// Compares the two top cells and pushes whether the outcome is the one
    /// selected.
    fn do_compare(&mut self, selected: Comparison) -> (r: Result<Effect, Error>)
        requires
            old(self)@.ptr < usize::MAX,
        ensures
            step_matches(r, old(self)@, final(self)@, compare(selected, old(self)@)),
    {
        let upper = match self.pop() {
            Some(cell) => cell,
            None => {
                return Err(stack_underflow());
            },
        };
        let lower = match self.pop() {
            Some(cell) => cell,
            None => {
                return Err(stack_underflow());
            },
        };
        proof {
            let stack = old(self)@.stack;
            assert(stack.drop_last().drop_last() =~= stack.take(stack.len() - 2));
        }
        match upper.partial_compare(&lower) {
            Some(found) => {
                let same = match (found, selected) {
                    (Comparison::Less, Comparison::Less) => true,
                    (Comparison::Equal, Comparison::Equal) => true,
                    (Comparison::Greater, Comparison::Greater) => true,
                    _ => false,
                };
                self.push(StackValue::Value(Value::Boolean(same)));
                self.advance(1);
                Ok(Effect::Continue)
            },
            None => Err(invalid_instruction()),
        }
    }

    /// Pushes what the container below the top holds at the index on top.
    fn do_index(&mut self) -> (r: Result<Effect, Error>)
        requires
            old(self)@.ptr < usize::MAX,
        ensures
            step_matches(r, old(self)@, final(self)@, index(old(self)@)),
    {
        let at = match self.pop() {
            Some(cell) => cell,
            None => {
                return Err(stack_underflow());
            },
        };
        proof {
            assert(self@.stack.len() == self.stack.len());
            if self.stack.len() > 0 {
                let stack = old(self)@.stack;
                assert(self@.stack.last() == self.stack@.last()@);
                assert(self@.stack.last() == stack[stack.len() - 2]);
            }
        }
        if self.stack.len() == 0 {
            return Err(stack_underflow());
        }
        let found = match (&self.stack[self.stack.len() - 1], &at) {
            (StackValue::Value(container), StackValue::Value(Value::Integer(i))) => item_at(
                container,
                i,
            ),
            _ => None,
        };
        match found {
            Some(value) => {
                self.push(StackValue::Value(value));
                self.advance(1);
                Ok(Effect::Continue)
            },
            None => Err(invalid_instruction()),
        }
    }

    /// Deletes the variable that the immediate names.
    fn do_remove_variable(&mut self, program: &Vec<Instruction>) -> (r: Result<Effect, Error>)
        requires
            old(self)@.ptr < program.len(),
        ensures
            step_matches(
                r,
                old(self)@,
                final(self)@,
                remove_variable(old(self)@, program_model(program@)),
            ),
    {
        match self.immediate(program, 1) {
            Some(i) => {
                self.memory.remove(i.to_natural());
                self.advance(2);
                Ok(Effect::Continue)
            },
            None => Err(invalid_instruction()),
        }
    }

    /// Jumps if the top value, as a boolean, is the one selected.
    fn do_jump_if(&mut self, selected: bool, program: &Vec<Instruction>) -> (r: Result<
        Effect,
        Error,
    >)
        requires
            old(self)@.ptr < program.len(),
            program.len() < usize::MAX,
        ensures
            step_matches(
                r,
                old(self)@,
                final(self)@,
                jump_if(selected, old(self)@, program_model(program@)),
            ),
    {
        let cell = match self.pop() {
            Some(cell) => cell,
            None => {
                return Err(stack_underflow());
            },
        };
        let value = match cell.into_plain() {
            Some(value) => value,
            None => {
                return Err(invalid_instruction());
            },
        };
        match value.to_bool() {
            Some(found) => {
                if found == selected {
                    self.go_to(program)
                } else {
                    self.advance(2);
                    Ok(Effect::Continue)
                }
            },
            None => Err(invalid_instruction()),
        }
    }

    /// Replaces the array on top by its items, the first on top.
    fn do_spread(&mut self) -> (r: Result<Effect, Error>)
        requires
            old(self)@.ptr < usize::MAX,
        ensures
            step_matches(r, old(self)@, final(self)@, spread(old(self)@)),
    {
        match self.pop() {
            None => Err(stack_underflow()),
            Some(StackValue::Value(Value::Array(items))) => {
                let mut items = items;
                let ghost all = value_models(items@);
                let ghost rest = self@.stack;
                proof {
                    lemma_array_model(items);
                    assert(rest + spread_cells(all).take(0) =~= rest);
                    assert(all.take(all.len() as int) =~= all);
                }
                loop
                    invariant
                        self@.memory == old(self)@.memory,
                        self@.ptr == old(self)@.ptr,
                        items.len() <= all.len(),
                        value_models(items@) == all.take(items.len() as int),
                        self@.stack == rest + spread_cells(all).take(all.len() - items.len()),
                    ensures
                        self@.memory == old(self)@.memory,
                        self@.ptr == old(self)@.ptr,
                        self@.stack == rest + spread_cells(all),
                    decreases items.len(),
                {
                    let ghost before = items@;
                    let ghost pushed = all.len() - items.len();
                    match items.pop() {
                        Some(value) => {
                            proof {
                                assert(value_models(items@) =~= all.take(items.len() as int));
                                assert(value@ == value_models(before).last());
                                assert(spread_cells(all).take(pushed + 1) =~= spread_cells(
                                    all,
                                ).take(pushed).push(plain(value@)));
                                assert(rest + spread_cells(all).take(pushed + 1) =~= (rest
                                    + spread_cells(all).take(pushed)).push(plain(value@)));
                            }
                            self.push(StackValue::Value(value));
                        },
                        None => {
                            proof {
                                assert(spread_cells(all).take(all.len() as int) =~= spread_cells(
                                    all,
                                ));
                            }
                            break ;
                        },
                    }
                }
                self.advance(1);
                Ok(Effect::Continue)
            },
            Some(_) => Err(invalid_instruction()),
        }
    }

    /// Negates the top value, or complements it.
    fn do_unary(&mut self, negate: bool) -> (r: Result<Effect, Error>)
        requires
            old(self)@.ptr < usize::MAX,
        ensures
            step_matches(
                r,
                old(self)@,
                final(self)@,
                unary(
                    if old(self)@.stack.len() > 0 {
                        if negate {
                            negated(cell_value(old(self)@.stack.last()))
                        } else {
                            complemented(cell_value(old(self)@.stack.last()))
                        }
                    } else {
                        None
                    },
                    old(self)@,
                ),
            ),
    {
        let value = match self.pop() {
            Some(cell) => cell.into_value(),
            None => {
                return Err(stack_underflow());
            },
        };
        let result = match value {
            Value::Boolean(b) => if negate {
                Value::Integer(
                    if b {
                        Integer::from_i64(-1)
                    } else {
                        Integer::from_i64(0)
                    },
                )
            } else {
                Value::Boolean(!b)
            },
            Value::Integer(i) => Value::Integer(
                if negate {
                    i.negated()
                } else {
                    i.complement()
                },
            ),
            _ => {
                return Err(invalid_instruction());
            },
        };
        self.push(StackValue::Value(result));
        self.advance(1);
        Ok(Effect::Continue)
    }

    /// Combines the two top values, the upper on the left.
    fn do_binary(&mut self, operator: BinaryOperator) -> (r: Result<Effect, Error>)
        requires
            old(self)@.ptr < usize::MAX,
        ensures
            step_matches(r, old(self)@, final(self)@, binary(operator, old(self)@)),
    {
        let upper = match self.pop() {
            Some(cell) => cell.into_value(),
            None => {
                return Err(stack_underflow());
            },
        };
        let lower = match self.pop() {
            Some(cell) => cell.into_value(),
            None => {
                return Err(stack_underflow());
            },
        };
        proof {
            let stack = old(self)@.stack;
            assert(stack.drop_last().drop_last() =~= stack.take(stack.len() - 2));
        }
        let a = match operand_of(&upper) {
            Some(a) => a,
            None => {
                return Err(invalid_instruction());
            },
        };
        let b = match operand_of(&lower) {
            Some(b) => b,
            None => {
                return Err(invalid_instruction());
            },
        };
        match compute(operator, &a, &b) {
            Some(result) => {
                self.push(StackValue::Value(Value::Integer(result)));
                self.advance(1);
                Ok(Effect::Continue)
            },
            None => Err(invalid_instruction()),
        }
    }

    /// Exchanges the two cells that the immediates count from the top.
    fn do_swap(&mut self, program: &Vec<Instruction>) -> (r: Result<Effect, Error>)
        requires
            old(self)@.ptr < program.len(),
        ensures
            step_matches(r, old(self)@, final(self)@, swap(old(self)@, program_model(program@))),
    {
        let second = match self.immediate(program, 2) {
            Some(i) => i.to_usize(),
            None => {
                return Err(invalid_instruction());
            },
        };
        let first = match self.immediate(program, 1) {
            Some(i) => i.to_usize(),
            None => {
                return Err(invalid_instruction());
            },
        };
        let n = self.stack.len();
        match (first, second) {
            (Some(a), Some(b)) => {
                if a >= n || b >= n {
                    return Err(invalid_instruction());
                }
                let i = n - 1 - a;
                let j = n - 1 - b;
                let ghost before = self.stack@;
                let upper = self.stack[i].clone();
                let lower = self.stack[j].clone();
                self.stack.set(i, lower);
                self.stack.set(j, upper);
                proof {
                    let models = stack_models(before);
                    assert(stack_models(self.stack@) =~= models.update(
                        i as int,
                        models[j as int],
                    ).update(j as int, models[i as int]));
                }
                self.advance(3);
                Ok(Effect::Continue)
            },
            _ => Err(invalid_instruction()),
        }
    }

    /// Carries out an opcode, as [`execute`] describes it.
    fn execute(&mut self, opcode: Opcode, program: &Vec<Instruction>) -> (r: Result<Effect, Error>)
        requires
            old(self)@.ptr < program.len(),
            program.len() < usize::MAX,
        ensures
            step_matches(
                r,
                old(self)@,
                final(self)@,
                execute(opcode, old(self)@, program_model(program@)),
            ),
    {
        match opcode {
            Opcode::Nop => {
                self.advance(1);
                Ok(Effect::Continue)
            },
            Opcode::Duplicate => self.do_duplicate(),
            Opcode::Pop => self.do_pop(),
            Opcode::PushInteger => self.do_push_integer(program),
            Opcode::PopToVariable => self.do_pop_to_variable(program),
            Opcode::PushVariable => self.do_push_variable(program),
            Opcode::PushString => self.do_push_string(program),
            Opcode::PushFloat => Err(invalid_instruction()),
            Opcode::Call => self.do_call(),
            Opcode::MakeArgument => self.do_make_argument(),
            Opcode::MakeOptional => self.do_make_optional(program),
            Opcode::Jump => self.go_to(program),
            Opcode::Compare(selected) => self.do_compare(selected),
            Opcode::Index => self.do_index(),
            Opcode::RemoveVariable => self.do_remove_variable(program),
            Opcode::JumpIf(selected) => self.do_jump_if(selected, program),
            Opcode::PushBoolean(b) => {
                self.push(StackValue::Value(Value::Boolean(b)));
                self.advance(1);
                Ok(Effect::Continue)
            },
            Opcode::PushArray => {
                let items: Vec<Value> = Vec::new();
                proof {
                    lemma_array_model(items);
                    assert(value_models(items@) =~= Seq::empty());
                }
                self.push(StackValue::Value(Value::Array(items)));
                self.advance(1);
                Ok(Effect::Continue)
            },
            Opcode::Spread => self.do_spread(),
            Opcode::Negate => self.do_unary(true),
            Opcode::Not => self.do_unary(false),
            Opcode::Binary(operator) => self.do_binary(operator),
            Opcode::Swap => self.do_swap(program),
        }
    }

    /// Takes one step, as [`step`] describes it: past the end of the program
    /// the machine halts; else it carries out the instruction at `ptr`.
    ///
    /// A step that fails changes neither the variables nor `ptr`, and leaves
    /// of the stack what lay below the cells that it took.
    pub fn step(&mut self, program: &Vec<Instruction>) -> (r: Result<Effect, Error>)
        requires
            program.len() < usize::MAX,
        ensures
            step_matches(r, old(self)@, final(self)@, step(old(self)@, program_model(program@))),
    {
        if self.ptr >= program.len() {
            return Ok(Effect::Halt);
        }
        match Opcode::decode(&program[self.ptr]) {
            Some(opcode) => self.execute(opcode, program),
            None => Err(invalid_instruction()),
        }
    }

    /// Runs the program for `limit` steps at most, as [`run`] describes it,
    /// and appends what the program writes to `output`.
    ///
    /// After a failure the machine is as the failing step left it: see
    /// [`Interpreter::step`].
    pub fn run(&mut self, program: &Vec<Instruction>, limit: usize, output: &mut String) -> (r:
        Result<Pause, Error>)
        requires
            program.len() < usize::MAX,
        ensures
            r == run(old(self)@, program_model(program@), limit as nat).end,
            final(output)@ == old(output)@ + run(
                old(self)@,
                program_model(program@),
                limit as nat,
            ).output,
            r is Ok ==> final(self)@ == run(old(self)@, program_model(program@), limit as nat).state,
            r is Err ==> left_of(
                final(self)@,
                run(old(self)@, program_model(program@), limit as nat).state,
            ),
    {
        let ghost model = program_model(program@);
        let ghost whole = run(self@, model, limit as nat);
        let mut left = limit;
        proof {
            assert(old(output)@ + Seq::<char>::empty() =~= old(output)@);
        }
        loop
            invariant
                program.len() < usize::MAX,
                model == program_model(program@),
                whole == run(old(self)@, model, limit as nat),
                whole.end == run(self@, model, left as nat).end,
                whole.state == run(self@, model, left as nat).state,
                old(output)@ + whole.output == output@ + run(self@, model, left as nat).output,
            decreases left,
        {
            let ghost here = self@;
            let ghost written = output@;
            if self.ptr >= program.len() {
                proof {
                    assert(output@ + Seq::<char>::empty() =~= output@);
                }
                return Ok(Pause::Finished);
            }
            if left == 0 {
                proof {
                    assert(output@ + Seq::<char>::empty() =~= output@);
                }
                return Ok(Pause::OutOfSteps);
            }
            match self.step(program) {
                Err(e) => {
                    proof {
                        assert(output@ + Seq::<char>::empty() =~= output@);
                    }
                    return Err(e);
                },
                Ok(Effect::ReadLine) => {
                    proof {
                        assert(output@ + Seq::<char>::empty() =~= output@);
                    }
                    return Ok(Pause::AwaitingLine);
                },
                Ok(Effect::Write(text)) => {
                    output.append(text.as_str());
                    proof {
                        let rest = run(self@, model, (left - 1) as nat);
                        assert(written + (text@ + rest.output) =~= (written + text@) + rest.output);
                    }
                },
                Ok(_) => {},
            }
            left -= 1;
        }
    }
}

} // verus!
