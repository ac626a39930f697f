//! What holds of every program and every state: laws that follow from the
//! meaning of the instructions, proved here.

use crate::comparison::Comparison;
use crate::function::{
    call_model, pop_model, printed, push_model, BuiltInFunction, CallModel, FunctionModel,
};
use crate::instruction::bits_value;
use crate::opcode::{decode, Opcode};
use crate::semantics::{
    compare, duplicate, execute, gather, immediate, plain, pop, run, spread, step, Gathered,
    Pause, State,
};
use crate::stack_value::{cell_value, compare_cells, StackValueModel};
use crate::value::{displays, ValueModel};
use vstd::prelude::*;

verus! {

/// Whether an opcode may go on at another place than behind itself and its
/// immediates.
pub open spec fn is_jump(opcode: Opcode) -> bool {
    opcode is Jump || opcode is JumpIf
}

/// Whether an opcode does nothing but push one plain value.
pub open spec fn is_push(opcode: Opcode) -> bool {
    ||| opcode is PushInteger
    ||| opcode is PushVariable
    ||| opcode is PushString
    ||| opcode is PushBoolean
    ||| opcode is PushArray
}

/// Where a step that succeeds leaves `ptr`: an opcode that is no jump moves
/// it forward, and not past the end of the program; a jump that is taken
/// puts it on the target, and one that is not taken moves it two places on.
pub proof fn lemma_step_pointer(s: State, program: Seq<Seq<bool>>)
    requires
        s.ptr < program.len(),
        step(s, program) is Ok,
    ensures
        decode(program[s.ptr as int]) matches Some(opcode) && ({
            let after = step(s, program)->Ok_0.0;
            if is_jump(opcode) {
                after.ptr == s.ptr + 2 || (s.ptr + 1 < program.len() && after.ptr == bits_value(
                    immediate(s, program, 1),
                ))
            } else {
                s.ptr < after.ptr <= program.len()
            }
        }),
{
}

/// Whether the instruction at `i` selects a jump.
pub open spec fn jumps_at(program: Seq<Seq<bool>>, i: int) -> bool {
    decode(program[i]) is Some && is_jump(decode(program[i])->0)
}

/// Whether every jump in a program has its target, and the target lies
/// behind the jump and not past the end of the program.
pub open spec fn well_formed(program: Seq<Seq<bool>>) -> bool {
    forall|i: int|
        0 <= i < program.len() && #[trigger] jumps_at(program, i) ==> i + 1 < program.len() && i
            < bits_value(program[i + 1]) <= program.len()
}

/// In a well-formed program every step that succeeds moves `ptr` forward,
/// and not past the end of the program.
pub proof fn lemma_step_moves_forward(s: State, program: Seq<Seq<bool>>)
    requires
        well_formed(program),
        s.ptr < program.len(),
        step(s, program) is Ok,
    ensures
        s.ptr < step(s, program)->Ok_0.0.ptr <= program.len(),
{
    lemma_step_pointer(s, program);
    if jumps_at(program, s.ptr as int) {
        assert(bits_value(program[s.ptr as int + 1]) > s.ptr);
    }
}

/// A well-formed program comes to an end: a run that may take as many steps
/// as there are instructions left does not run out of steps. It finishes
/// with `ptr` at the end of the program, or fails, or waits for a line of
/// input.
pub proof fn lemma_run_terminates(s: State, program: Seq<Seq<bool>>, limit: nat)
    requires
        well_formed(program),
        s.ptr <= program.len(),
        s.ptr + limit >= program.len(),
    ensures
        run(s, program, limit).end != Ok::<Pause, crate::error::Error>(Pause::OutOfSteps),
        run(s, program, limit).end == Ok::<Pause, crate::error::Error>(Pause::Finished) ==> run(
            s,
            program,
            limit,
        ).state.ptr == program.len(),
    decreases limit,
{
    if s.ptr < program.len() && limit > 0 {
        match step(s, program) {
            Ok((after, effect)) => {
                lemma_step_moves_forward(s, program);
                if !(effect is ReadLine) {
                    lemma_run_terminates(after, program, (limit - 1) as nat);
                }
            },
            Err(_) => {},
        }
    }
}

/// Whatever the program, a run that finishes stands at or behind the end of
/// the program, and a run that runs out of steps stands within it.
pub proof fn lemma_run_end(s: State, program: Seq<Seq<bool>>, limit: nat)
    ensures
        run(s, program, limit).end == Ok::<Pause, crate::error::Error>(Pause::Finished) ==> run(
            s,
            program,
            limit,
        ).state.ptr >= program.len(),
        run(s, program, limit).end == Ok::<Pause, crate::error::Error>(Pause::OutOfSteps)
            ==> run(s, program, limit).state.ptr < program.len(),
    decreases limit,
{
    if s.ptr < program.len() && limit > 0 {
        match step(s, program) {
            Ok((after, effect)) => {
                if !(effect is ReadLine) {
                    lemma_run_end(after, program, (limit - 1) as nat);
                }
            },
            Err(_) => {},
        }
    }
}

/// Duplicating makes the stack one cell longer.
pub proof fn lemma_duplicate_grows(s: State)
    requires
        duplicate(s) is Ok,
    ensures
        duplicate(s)->Ok_0.0.stack.len() == s.stack.len() + 1,
{
}

/// Popping makes the stack one cell shorter.
pub proof fn lemma_pop_shrinks(s: State)
    requires
        pop(s) is Ok,
    ensures
        pop(s)->Ok_0.0.stack.len() == s.stack.len() - 1,
{
}

/// A push makes the stack one cell longer, and a pop after it gives the
/// stack back as it was.
pub proof fn lemma_push_then_pop(opcode: Opcode, s: State, program: Seq<Seq<bool>>)
    requires
        is_push(opcode),
        execute(opcode, s, program) is Ok,
    ensures
        ({
            let pushed = execute(opcode, s, program)->Ok_0.0;
            &&& pushed.stack.len() == s.stack.len() + 1
            &&& pop(pushed) is Ok
            &&& pop(pushed)->Ok_0.0.stack == s.stack
        }),
{
    let pushed = execute(opcode, s, program)->Ok_0.0;
    assert(pushed.stack.drop_last() =~= s.stack);
}

/// `Pop` takes an array of one item or more apart into its last item and
/// the array of the others, and `Push` of the two gives the array back.
pub proof fn lemma_pop_push_round_trip(items: Seq<ValueModel>)
    requires
        items.len() > 0,
    ensures
        pop_model(ValueModel::Array(items)) == Ok::<ValueModel, crate::error::Error>(
            ValueModel::Array(seq![items.last(), ValueModel::Array(items.drop_last())]),
        ),
        items.drop_last().len() == items.len() - 1,
        push_model(ValueModel::Array(items.drop_last()), items.last()) == Ok::<
            ValueModel,
            crate::error::Error,
        >(ValueModel::Array(items)),
{
    assert(items.drop_last().push(items.last()) =~= items);
}

/// The same through calls of the built-in functions: what a call of `Pop`
/// returns for an array, handed to a call of `Push` item by item, gives the
/// array back.
pub proof fn lemma_pop_push_calls(items: Seq<ValueModel>, optionals: Map<nat, ValueModel>)
    requires
        items.len() > 0,
    ensures
        ({
            let pop_function = FunctionModel {
                varargs: false,
                arity: 1,
                built_in: BuiltInFunction::Pop,
                instructions: Seq::empty(),
            };
            let push_function = FunctionModel {
                varargs: false,
                arity: 2,
                built_in: BuiltInFunction::Push,
                instructions: Seq::empty(),
            };
            &&& call_model(pop_function, seq![ValueModel::Array(items)], optionals) matches Ok(
                CallModel::Return(Some(ValueModel::Array(pair))),
            )
            &&& pair.len() == 2
            &&& pair[0] == items.last()
            &&& pair[1] matches ValueModel::Array(others)
            &&& others.len() == items.len() - 1
            &&& call_model(push_function, seq![pair[1], pair[0]], optionals) == Ok::<
                CallModel,
                crate::error::Error,
            >(CallModel::Return(Some(ValueModel::Array(items))))
        }),
{
    lemma_pop_push_round_trip(items);
}

/// Whether a comparison with a selection succeeds and pushes a boolean.
pub open spec fn pushes(selected: Comparison, s: State, b: bool) -> bool {
    compare(selected, s) matches Ok((after, _)) && after.stack.len() > 0 && after.stack.last()
        == plain(ValueModel::Boolean(b))
}

/// Of two cells that can be compared, exactly one of the three selections
/// pushes `true`, and the other two push `false`.
pub proof fn lemma_comparison_exclusive(s: State)
    requires
        s.stack.len() >= 2,
        compare_cells(s.stack[s.stack.len() - 1], s.stack[s.stack.len() - 2]) is Some,
    ensures
        ({
            let found = compare_cells(s.stack[s.stack.len() - 1], s.stack[s.stack.len() - 2])->0;
            &&& pushes(Comparison::Less, s, found == Comparison::Less)
            &&& pushes(Comparison::Equal, s, found == Comparison::Equal)
            &&& pushes(Comparison::Greater, s, found == Comparison::Greater)
            &&& (found == Comparison::Less || found == Comparison::Equal || found
                == Comparison::Greater)
            &&& !(found == Comparison::Less && found == Comparison::Equal)
            &&& !(found == Comparison::Less && found == Comparison::Greater)
            &&& !(found == Comparison::Equal && found == Comparison::Greater)
        }),
{
}

/// `PrintLn` writes what `Print` writes for the same arguments, and one line
/// end behind it; `Print` without arguments writes nothing.
pub proof fn lemma_print_line(
    varargs: bool,
    arity: usize,
    args: Seq<ValueModel>,
    optionals: Map<nat, ValueModel>,
)
    requires
        args.len() >= arity,
        varargs || args.len() == arity,
    ensures
        ({
            let print = FunctionModel {
                varargs,
                arity,
                built_in: BuiltInFunction::Print,
                instructions: Seq::empty(),
            };
            let print_line = FunctionModel {
                varargs,
                arity,
                built_in: BuiltInFunction::PrintLn,
                instructions: Seq::empty(),
            };
            &&& call_model(print, args, optionals) matches Ok(CallModel::Print(text))
            &&& call_model(print_line, args, optionals) matches Ok(CallModel::Print(line))
            &&& line.len() == text.len() + 1
            &&& line.last() == '\n'
            &&& line.drop_last() == text
            &&& args.len() == 0 ==> text.len() == 0
        }),
{
    reveal_strlit("\n");
    let text = printed(args, optionals);
    let line = text + "\n"@;
    assert(line.drop_last() =~= text);
    if args.len() == 0 {
        assert(displays(args) =~= Seq::empty());
    }
}

/// Whether a cell counts as a positional argument of a call: it is marked
/// as an argument, or it is plain and no function.
pub open spec fn is_positional(cell: StackValueModel) -> bool {
    match cell {
        StackValueModel::Value(v) => !(v is Function),
        StackValueModel::Argument(_) => true,
        StackValueModel::Optional(_, _) => false,
    }
}

/// The values of some cells.
pub open spec fn cell_values(cells: Seq<StackValueModel>) -> Seq<ValueModel> {
    Seq::new(cells.len(), |i: int| cell_value(cells[i]))
}

/// Cells that count as positional arguments go in front of the arguments
/// that a call has taken already, in the order in which they lie on the
/// stack.
proof fn lemma_gather_positional(
    below: Seq<StackValueModel>,
    cells: Seq<StackValueModel>,
    args: Seq<ValueModel>,
    optionals: Map<nat, ValueModel>,
)
    requires
        forall|i: int| 0 <= i < cells.len() ==> is_positional(#[trigger] cells[i]),
    ensures
        gather(below + cells, args, optionals) == gather(
            below,
            cell_values(cells) + args,
            optionals,
        ),
    decreases cells.len(),
{
    if cells.len() == 0 {
        assert(below + cells =~= below);
        assert(cell_values(cells) + args =~= args);
    } else {
        let top = cells.last();
        let others = cells.drop_last();
        assert(is_positional(top));
        assert((below + cells).last() == top);
        assert((below + cells).drop_last() =~= below + others);
        lemma_gather_positional(below, others, seq![cell_value(top)] + args, optionals);
        assert(cell_values(others) + (seq![cell_value(top)] + args) =~= cell_values(cells)
            + args);
    }
}

/// A call takes its arguments in the order in which they were pushed: where
/// a plain function lies on the stack with nothing but positional arguments
/// above it, the call is of that function, the value pushed first is the
/// first argument, and what lay below the function is left.
pub proof fn lemma_call_takes_arguments_in_order(
    below: Seq<StackValueModel>,
    function: crate::function::FunctionModel,
    cells: Seq<StackValueModel>,
)
    requires
        forall|i: int| 0 <= i < cells.len() ==> is_positional(#[trigger] cells[i]),
    ensures
        gather(
            below.push(plain(ValueModel::Function(function))) + cells,
            Seq::empty(),
            Map::empty(),
        ) == Some(
            Gathered {
                function,
                args: cell_values(cells),
                optionals: Map::empty(),
                rest: below,
            },
        ),
{
    let base = below.push(plain(ValueModel::Function(function)));
    lemma_gather_positional(base, cells, Seq::empty(), Map::empty());
    assert(cell_values(cells) + Seq::<ValueModel>::empty() =~= cell_values(cells));
    assert(base.drop_last() =~= below);
}

/// Spreading an array takes the array off and puts its items on, one cell for
/// each, so that the first item comes to lie on top and the last at the
/// bottom.
pub proof fn lemma_spread_order(s: State, items: Seq<ValueModel>)
    requires
        s.stack.len() > 0,
        s.stack.last() == plain(ValueModel::Array(items)),
    ensures
        spread(s) matches Ok((after, _)) && ({
            let below = s.stack.len() - 1;
            &&& after.stack.len() == below + items.len()
            &&& after.stack.take(below) == s.stack.drop_last()
            &&& forall|i: int|
                0 <= i < items.len() ==> after.stack[below + items.len() - 1 - i] == plain(
                    #[trigger] items[i],
                )
        }),
{
    let after = spread(s)->Ok_0.0;
    assert(after.stack.take(s.stack.len() - 1) =~= s.stack.drop_last());
}

} // verus!
