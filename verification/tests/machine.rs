use pathvm::error::{Error, FunctionCallError, RuntimeError};
use pathvm::instruction::Instruction;
use pathvm::interpreter::{Effect, Interpreter};
use pathvm::natural::Natural;
use pathvm::opcode::{BinaryOperator, Opcode};
use pathvm::comparison::Comparison;
use pathvm::semantics::Pause;
use pathvm::stack_value::StackValue;
use pathvm::value::Value;

fn bits(bits: &[u8]) -> Instruction {
    let mut i = Instruction::default();
    for b in bits {
        i.add_part(if *b == 1 { ".." } else { "." });
    }
    i
}

fn number(mut n: u64) -> Vec<u8> {
    let mut bits = Vec::new();
    while n > 0 {
        bits.push((n % 2) as u8);
        n /= 2;
    }
    bits
}

fn program(instructions: &[&[u8]]) -> Vec<Instruction> {
    instructions.iter().map(|i| bits(i)).collect()
}

fn push_integer(value: i64) -> Vec<Instruction> {
    vec![
        bits(&[0, 0]),
        bits(if value < 0 { &[0] } else { &[1] }),
        bits(&number(value.unsigned_abs())),
    ]
}

fn join(parts: Vec<Vec<Instruction>>) -> Vec<Instruction> {
    parts.into_iter().flatten().collect()
}

fn finish(program: &Vec<Instruction>) -> (Result<Pause, Error>, String, Interpreter) {
    let mut machine = Interpreter::new();
    let mut output = String::new();
    let end = machine.run(program, 10_000, &mut output);
    (end, output, machine)
}

fn shown(machine: &Interpreter) -> Vec<String> {
    machine
        .stack()
        .iter()
        .map(|cell| match cell {
            StackValue::Value(v) => v.to_string(),
            StackValue::Argument(v) => format!("arg {}", v.to_string()),
            StackValue::Optional(k, v) => {
                format!("opt {} {}", k.to_usize().unwrap(), v.to_string())
            }
        })
        .collect()
}

fn stack_after(program: &Vec<Instruction>) -> Vec<String> {
    let (end, _, machine) = finish(program);
    assert_eq!(end, Ok(Pause::Finished));
    shown(&machine)
}

fn failure(program: &Vec<Instruction>) -> Error {
    match finish(program).0 {
        Err(e) => e,
        other => panic!("unexpected {:?}", other),
    }
}

const INVALID: Error = Error::Runtime(RuntimeError::InvalidInstruction);
const UNDERFLOW: Error = Error::Runtime(RuntimeError::StackUnderflow);
const TRUE: &[u8] = &[0, 1, 0, 1];
const FALSE: &[u8] = &[0, 1, 0, 0];
const EMPTY_ARRAY: &[u8] = &[0, 1, 1, 0];
const DUPLICATE: &[u8] = &[0];
const POP: &[u8] = &[1];
const CALL: &[u8] = &[0, 0, 1];

fn binary(operator: &[u8], upper: i64, lower: i64) -> Vec<Instruction> {
    join(vec![push_integer(lower), push_integer(upper), program(&[operator])])
}

#[test]
fn opcodes_by_length_and_bits() {
    assert_eq!(Opcode::decode(&bits(&[])), Some(Opcode::Nop));
    assert_eq!(Opcode::decode(&bits(&[0])), Some(Opcode::Duplicate));
    assert_eq!(Opcode::decode(&bits(&[1])), Some(Opcode::Pop));
    assert_eq!(Opcode::decode(&bits(&[0, 0])), Some(Opcode::PushInteger));
    assert_eq!(Opcode::decode(&bits(&[0, 1])), Some(Opcode::PopToVariable));
    assert_eq!(Opcode::decode(&bits(&[1, 0])), Some(Opcode::PushVariable));
    assert_eq!(Opcode::decode(&bits(&[1, 1])), Some(Opcode::PushString));
    assert_eq!(Opcode::decode(&bits(&[0, 0, 0])), Some(Opcode::PushFloat));
    assert_eq!(Opcode::decode(&bits(&[0, 0, 1])), Some(Opcode::Call));
    assert_eq!(Opcode::decode(&bits(&[0, 1, 0])), Some(Opcode::MakeArgument));
    assert_eq!(Opcode::decode(&bits(&[0, 1, 1])), Some(Opcode::MakeOptional));
    assert_eq!(Opcode::decode(&bits(&[1, 0, 0])), Some(Opcode::Jump));
    assert_eq!(Opcode::decode(&bits(&[1, 0, 1])), Some(Opcode::Compare(Comparison::Less)));
    assert_eq!(Opcode::decode(&bits(&[1, 1, 0])), Some(Opcode::Compare(Comparison::Equal)));
    assert_eq!(Opcode::decode(&bits(&[1, 1, 1])), Some(Opcode::Compare(Comparison::Greater)));
    assert_eq!(Opcode::decode(&bits(&[0, 0, 0, 0])), Some(Opcode::Index));
    assert_eq!(Opcode::decode(&bits(&[0, 0, 0, 1])), Some(Opcode::RemoveVariable));
    assert_eq!(Opcode::decode(&bits(&[0, 0, 1, 0])), Some(Opcode::JumpIf(false)));
    assert_eq!(Opcode::decode(&bits(&[0, 0, 1, 1])), Some(Opcode::JumpIf(true)));
    assert_eq!(Opcode::decode(&bits(&[0, 1, 0, 0])), Some(Opcode::PushBoolean(false)));
    assert_eq!(Opcode::decode(&bits(&[0, 1, 0, 1])), Some(Opcode::PushBoolean(true)));
    assert_eq!(Opcode::decode(&bits(&[0, 1, 1, 0])), Some(Opcode::PushArray));
    assert_eq!(Opcode::decode(&bits(&[0, 1, 1, 1])), Some(Opcode::Spread));
    assert_eq!(Opcode::decode(&bits(&[1, 1, 1, 0])), Some(Opcode::Negate));
    assert_eq!(Opcode::decode(&bits(&[1, 1, 1, 1])), Some(Opcode::Not));
    assert_eq!(Opcode::decode(&bits(&[1, 0, 0, 0])), Some(Opcode::Binary(BinaryOperator::Add)));
    assert_eq!(
        Opcode::decode(&bits(&[1, 0, 0, 1])),
        Some(Opcode::Binary(BinaryOperator::Subtract))
    );
    assert_eq!(
        Opcode::decode(&bits(&[1, 0, 1, 0])),
        Some(Opcode::Binary(BinaryOperator::Multiply))
    );
    assert_eq!(
        Opcode::decode(&bits(&[1, 0, 1, 1])),
        Some(Opcode::Binary(BinaryOperator::Divide))
    );
    assert_eq!(
        Opcode::decode(&bits(&[1, 1, 0, 0])),
        Some(Opcode::Binary(BinaryOperator::Remainder))
    );
    assert_eq!(
        Opcode::decode(&bits(&[1, 1, 0, 1])),
        Some(Opcode::Binary(BinaryOperator::Power))
    );
    assert_eq!(Opcode::decode(&bits(&[0, 0, 0, 0, 0])), Some(Opcode::Swap));
    assert_eq!(Opcode::decode(&bits(&[0, 0, 0, 0, 1])), None);
    assert_eq!(Opcode::decode(&bits(&[0, 1, 0, 0, 0])), None);
    assert_eq!(Opcode::decode(&bits(&[0, 0, 0, 0, 0, 0])), None);
}

#[test]
fn new_machine_is_at_the_start() {
    let machine = Interpreter::new();
    assert_eq!(machine.ptr(), 0);
    assert_eq!(machine.stack().len(), 0);
    assert!(machine.memory().get(Natural::from_u64(1)).is_some());
    assert!(machine.memory().get(Natural::from_u64(2)).is_none());
}

#[test]
fn step_past_the_end_halts() {
    let mut machine = Interpreter::new();
    assert!(matches!(machine.step(&vec![]), Ok(Effect::Halt)));
    assert_eq!(machine.ptr(), 0);
}

#[test]
fn nop_moves_on() {
    let code = vec![Instruction::default(), Instruction::default()];
    let mut machine = Interpreter::new();
    assert!(matches!(machine.step(&code), Ok(Effect::Continue)));
    assert_eq!(machine.ptr(), 1);
    assert_eq!(machine.stack().len(), 0);
}

#[test]
fn duplicate_adds_one_cell_and_pop_takes_one() {
    let code = program(&[TRUE, DUPLICATE, DUPLICATE, POP]);
    let mut machine = Interpreter::new();
    let mut lengths = Vec::new();
    for _ in 0..4 {
        assert!(matches!(machine.step(&code), Ok(Effect::Continue)));
        lengths.push(machine.stack().len());
    }
    assert_eq!(lengths, vec![1, 2, 3, 2]);
    assert_eq!(shown(&machine), vec!["true", "true"]);
}

#[test]
fn duplicate_and_pop_need_a_cell() {
    assert_eq!(failure(&program(&[DUPLICATE])), UNDERFLOW);
    assert_eq!(failure(&program(&[POP])), UNDERFLOW);
}

#[test]
fn push_then_pop_gives_the_stack_back() {
    let pushes: Vec<Vec<Instruction>> = vec![
        push_integer(9),
        program(&[TRUE]),
        program(&[EMPTY_ARRAY]),
        program(&[&[1, 0], &number(1)]),
        program(&[&[1, 1], &number(1), &[0, 1, 0, 0, 0, 0, 0, 1]]),
    ];
    for push in pushes {
        let code = join(vec![program(&[FALSE]), push, program(&[POP])]);
        assert_eq!(stack_after(&code), vec!["false"]);
    }
}

#[test]
fn pointer_moves_forward_through_a_straight_program() {
    let code = join(vec![
        push_integer(3),
        push_integer(4),
        program(&[&[1, 0, 0, 0], DUPLICATE, POP, &[1, 1], &number(0)]),
    ]);
    let mut machine = Interpreter::new();
    let mut last = 0;
    let mut steps = 0;
    while machine.ptr() < code.len() {
        assert!(matches!(machine.step(&code), Ok(Effect::Continue)));
        assert!(machine.ptr() > last);
        assert!(machine.ptr() <= code.len());
        last = machine.ptr();
        steps += 1;
    }
    assert!(steps <= code.len());
    assert_eq!(shown(&machine), vec!["7", ""]);
}

#[test]
fn push_integer_needs_both_immediates() {
    assert_eq!(failure(&program(&[&[0, 0]])), INVALID);
    assert_eq!(failure(&program(&[&[0, 0], &[1]])), INVALID);
    assert_eq!(failure(&program(&[&[0, 0], &[], &[1]])), INVALID);
    assert_eq!(stack_after(&program(&[&[0, 0], &[1], &[]])), vec!["0"]);
    assert_eq!(stack_after(&program(&[&[0, 0], &[0], &[1, 1]])), vec!["-3"]);
    assert_eq!(stack_after(&program(&[&[0, 0], &[1, 0, 0], &[0, 1]])), vec!["2"]);
}

#[test]
fn pop_to_variable_checks_in_order() {
    assert_eq!(failure(&program(&[&[0, 1]])), INVALID);
    assert_eq!(failure(&program(&[&[0, 1], &[1]])), UNDERFLOW);
    let optional = program(&[TRUE, &[0, 1, 1], &number(5), &[0, 1], &number(20)]);
    assert_eq!(failure(&optional), INVALID);
    let argument = program(&[TRUE, &[0, 1, 0], &[0, 1], &number(20), &[1, 0], &number(20)]);
    assert_eq!(stack_after(&argument), vec!["true"]);
}

#[test]
fn push_string_reads_its_bytes() {
    let hi = program(&[
        &[1, 1],
        &number(2),
        &[0, 1, 1, 0, 1, 0, 0, 0],
        &[0, 1, 1, 0, 1, 0, 0, 1],
    ]);
    assert_eq!(stack_after(&hi), vec!["hi"]);
    let latin = program(&[&[1, 1], &number(1), &[1, 1, 1, 0, 1, 0, 0, 1]]);
    assert_eq!(stack_after(&latin), vec!["\u{e9}"]);
    assert_eq!(stack_after(&program(&[&[1, 1], &[]])), vec![""]);
}

#[test]
fn push_string_that_fails() {
    assert_eq!(failure(&program(&[&[1, 1]])), INVALID);
    assert_eq!(failure(&program(&[&[1, 1], &number(2), &[0, 1, 1, 0, 1, 0, 0, 0]])), INVALID);
    assert_eq!(failure(&program(&[&[1, 1], &number(1), &[0, 1, 1, 0, 1, 0, 0]])), INVALID);
    assert_eq!(
        failure(&program(&[&[1, 1], &number(1), &[0, 1, 1, 0, 1, 0, 0, 0, 0]])),
        INVALID
    );
    let mut huge = vec![0u8; 80];
    huge.push(1);
    assert_eq!(failure(&program(&[&[1, 1], &huge])), INVALID);
}

#[test]
fn call_takes_arguments_deepest_first() {
    // Print(1, 2, 3) with the separator "-" under key 0.
    let code = join(vec![
        program(&[&[1, 0], &number(0)]),
        push_integer(1),
        program(&[&[1, 1], &number(1), &[0, 0, 1, 0, 1, 1, 0, 1], &[0, 1, 1], &number(0)]),
        push_integer(2),
        program(&[&[0, 1, 0]]),
        push_integer(3),
        program(&[CALL]),
    ]);
    let (end, output, machine) = finish(&code);
    assert_eq!(end, Ok(Pause::Finished));
    assert_eq!(output, "1-2-3");
    assert_eq!(machine.stack().len(), 0);
}

#[test]
fn deeper_optional_with_the_same_key_wins() {
    let dash = [0, 0, 1, 0, 1, 1, 0, 1];
    let plus = [0, 0, 1, 0, 1, 0, 1, 1];
    let code = join(vec![
        program(&[&[1, 0], &number(0)]),
        program(&[&[1, 1], &number(1), &dash, &[0, 1, 1], &number(0)]),
        push_integer(1),
        program(&[&[1, 1], &number(1), &plus, &[0, 1, 1], &number(0)]),
        push_integer(2),
        program(&[CALL]),
    ]);
    let (_, output, _) = finish(&code);
    assert_eq!(output, "1-2");
}

#[test]
fn call_leaves_what_lies_below_the_function() {
    // false, Len, "ab" -> false, 2
    let code = program(&[
        FALSE,
        &[1, 0],
        &number(8),
        &[1, 1],
        &number(2),
        &[0, 1, 1, 0, 0, 0, 0, 1],
        &[0, 1, 1, 0, 0, 0, 1, 0],
        CALL,
    ]);
    assert_eq!(stack_after(&code), vec!["false", "2"]);
}

#[test]
fn function_marked_as_argument_is_an_argument() {
    // ToStr, arg Pop -> "<function ...>"
    let code = program(&[&[1, 0], &number(5), &[1, 0], &number(10), &[0, 1, 0], CALL]);
    assert_eq!(stack_after(&code), vec!["<function constant arity=1 built-in>"]);
}

#[test]
fn call_without_a_function_underflows() {
    assert_eq!(failure(&program(&[CALL])), UNDERFLOW);
    assert_eq!(failure(&program(&[TRUE, FALSE, CALL])), UNDERFLOW);
}

#[test]
fn call_hands_the_error_of_the_function_on() {
    let code = program(&[&[1, 0], &number(8), CALL]);
    assert_eq!(
        failure(&code),
        Error::Call(FunctionCallError::InvalidNumberOfArguments { expected: 1, got: 0 })
    );
    let code = program(&[&[1, 0], &number(7), TRUE, CALL]);
    assert_eq!(failure(&code), Error::Call(FunctionCallError::InvalidArgument));
}

#[test]
fn read_line_waits_and_takes_the_line() {
    let code = program(&[&[1, 0], &number(3), CALL, DUPLICATE]);
    let mut machine = Interpreter::new();
    let mut output = String::new();
    assert_eq!(machine.run(&code, 100, &mut output), Ok(Pause::AwaitingLine));
    assert_eq!(machine.ptr(), 3);
    assert_eq!(machine.stack().len(), 0);
    machine.provide_line("typed\n".to_string());
    assert_eq!(shown(&machine), vec!["typed\n"]);
    assert_eq!(machine.run(&code, 100, &mut output), Ok(Pause::Finished));
    assert_eq!(shown(&machine), vec!["typed\n", "typed\n"]);
    assert_eq!(output, "");
}

#[test]
fn step_hands_out_what_print_writes() {
    let code = program(&[&[1, 0], &number(0), TRUE, CALL]);
    let mut machine = Interpreter::new();
    assert!(matches!(machine.step(&code), Ok(Effect::Continue)));
    assert!(matches!(machine.step(&code), Ok(Effect::Continue)));
    match machine.step(&code) {
        Ok(Effect::Write(text)) => assert_eq!(text, "true"),
        other => panic!("unexpected {:?}", other),
    }
    assert!(matches!(machine.step(&code), Ok(Effect::Halt)));
}

#[test]
fn output_written_before_a_failure_is_kept() {
    let code = program(&[&[1, 0], &number(1), TRUE, CALL, POP]);
    let (end, output, _) = finish(&code);
    assert_eq!(end, Err(UNDERFLOW));
    assert_eq!(output, "true\n");
}

#[test]
fn make_argument_needs_a_plain_cell() {
    assert_eq!(failure(&program(&[&[0, 1, 0]])), UNDERFLOW);
    assert_eq!(stack_after(&program(&[TRUE, &[0, 1, 0]])), vec!["arg true"]);
    assert_eq!(failure(&program(&[TRUE, &[0, 1, 0], &[0, 1, 0]])), INVALID);
    assert_eq!(failure(&program(&[TRUE, &[0, 1, 1], &number(1), &[0, 1, 0]])), INVALID);
}

#[test]
fn make_optional_takes_its_key_from_the_immediate() {
    assert_eq!(stack_after(&program(&[TRUE, &[0, 1, 1], &number(6)])), vec!["opt 6 true"]);
    assert_eq!(
        stack_after(&program(&[TRUE, &[0, 1, 0], &[0, 1, 1], &number(2)])),
        vec!["opt 2 true"]
    );
    assert_eq!(failure(&program(&[&[0, 1, 1], &number(6)])), UNDERFLOW);
    assert_eq!(failure(&program(&[TRUE, &[0, 1, 1]])), INVALID);
    assert_eq!(
        failure(&program(&[TRUE, &[0, 1, 1], &number(6), &[0, 1, 1], &number(7)])),
        INVALID
    );
}

#[test]
fn jump_needs_a_target() {
    assert_eq!(failure(&program(&[&[1, 0, 0]])), INVALID);
    let mut huge = vec![0u8; 80];
    huge.push(1);
    assert_eq!(failure(&program(&[&[1, 0, 0], &huge])), INVALID);
    let (end, _, machine) = finish(&program(&[&[1, 0, 0], &number(1000)]));
    assert_eq!(end, Ok(Pause::Finished));
    assert_eq!(machine.ptr(), 1000);
}

#[test]
fn conditional_jump_taken() {
    // push false; jump-if-false 4; push true; (4:) push false
    let code = program(&[FALSE, &[0, 0, 1, 0], &number(4), TRUE, FALSE]);
    assert_eq!(stack_after(&code), vec!["false"]);
    // an integer other than zero counts as true
    let code = join(vec![push_integer(5), program(&[&[0, 0, 1, 1], &number(6), TRUE, FALSE])]);
    assert_eq!(stack_after(&code), vec!["false"]);
}

#[test]
fn conditional_jump_that_fails() {
    assert_eq!(failure(&program(&[&[0, 0, 1, 0], &number(0)])), UNDERFLOW);
    assert_eq!(failure(&program(&[FALSE, &[0, 0, 1, 0]])), INVALID);
    assert_eq!(
        failure(&program(&[TRUE, &[0, 1, 1], &number(1), &[0, 0, 1, 0], &number(0)])),
        INVALID
    );
    assert_eq!(
        failure(&program(&[&[1, 0], &number(0), &[0, 0, 1, 0], &number(0)])),
        INVALID
    );
}

#[test]
fn conditional_jump_not_taken_at_the_end() {
    let (end, _, machine) = finish(&program(&[TRUE, &[0, 0, 1, 0]]));
    assert_eq!(end, Ok(Pause::Finished));
    assert_eq!(machine.ptr(), 3);
    assert_eq!(machine.stack().len(), 0);
}

#[test]
fn comparison_of_cells_that_cannot_be_compared() {
    assert_eq!(failure(&program(&[TRUE, &[1, 1, 0]])), UNDERFLOW);
    assert_eq!(failure(&program(&[&[1, 1, 0]])), UNDERFLOW);
    assert_eq!(failure(&join(vec![program(&[TRUE]), push_integer(1), program(&[&[1, 1, 0]])])), INVALID);
    assert_eq!(failure(&program(&[TRUE, TRUE, &[0, 1, 0], &[1, 1, 0]])), INVALID);
}

#[test]
fn comparison_pushes_one_boolean_for_two_cells() {
    let code = join(vec![program(&[FALSE]), push_integer(1), push_integer(2), program(&[&[1, 0, 1]])]);
    // 2 on top is compared with 1 below: not less.
    assert_eq!(stack_after(&code), vec!["false", "false"]);
}

#[test]
fn index_leaves_the_container() {
    // array [7, 8] built with Push, then index 1
    let array = join(vec![
        program(&[&[1, 0], &number(9)]),
        program(&[&[1, 0], &number(9), EMPTY_ARRAY]),
        push_integer(7),
        program(&[CALL]),
        push_integer(8),
        program(&[CALL]),
    ]);
    assert_eq!(stack_after(&array), vec!["[7, 8]"]);
    let second = join(vec![array.clone(), push_integer(1), program(&[&[0, 0, 0, 0]])]);
    assert_eq!(stack_after(&second), vec!["[7, 8]", "8"]);
    let outside = join(vec![array.clone(), push_integer(2), program(&[&[0, 0, 0, 0]])]);
    assert_eq!(failure(&outside), INVALID);
    let negative = join(vec![array, push_integer(-1), program(&[&[0, 0, 0, 0]])]);
    assert_eq!(failure(&negative), INVALID);
}

#[test]
fn index_of_a_string_is_a_code_point() {
    let text = program(&[
        &[1, 1],
        &number(2),
        &[0, 1, 1, 0, 1, 0, 0, 0],
        &[1, 1, 1, 0, 1, 0, 0, 1],
    ]);
    let first = join(vec![text.clone(), push_integer(0), program(&[&[0, 0, 0, 0]])]);
    assert_eq!(stack_after(&first), vec!["h\u{e9}", "104"]);
    let second = join(vec![text.clone(), push_integer(1), program(&[&[0, 0, 0, 0]])]);
    assert_eq!(stack_after(&second), vec!["h\u{e9}", "233"]);
    let outside = join(vec![text, push_integer(2), program(&[&[0, 0, 0, 0]])]);
    assert_eq!(failure(&outside), INVALID);
}

#[test]
fn index_that_fails() {
    assert_eq!(failure(&program(&[&[0, 0, 0, 0]])), UNDERFLOW);
    assert_eq!(failure(&program(&[TRUE, &[0, 0, 0, 0]])), UNDERFLOW);
    assert_eq!(failure(&program(&[EMPTY_ARRAY, TRUE, &[0, 0, 0, 0]])), INVALID);
    assert_eq!(failure(&join(vec![program(&[TRUE]), push_integer(0), program(&[&[0, 0, 0, 0]])])), INVALID);
    let marked = join(vec![program(&[EMPTY_ARRAY]), push_integer(0), program(&[&[0, 1, 0], &[0, 0, 0, 0]])]);
    assert_eq!(failure(&marked), INVALID);
}

#[test]
fn remove_variable_needs_its_immediate() {
    assert_eq!(failure(&program(&[&[0, 0, 0, 1]])), INVALID);
    let (end, _, machine) = finish(&program(&[&[0, 0, 0, 1], &number(77)]));
    assert_eq!(end, Ok(Pause::Finished));
    assert_eq!(machine.ptr(), 2);
}

#[test]
fn spread_puts_the_first_item_on_top() {
    let array = join(vec![
        program(&[&[1, 0], &number(9)]),
        program(&[&[1, 0], &number(9)]),
        program(&[&[1, 0], &number(9), EMPTY_ARRAY]),
        push_integer(1),
        program(&[CALL]),
        push_integer(2),
        program(&[CALL]),
        push_integer(3),
        program(&[CALL, &[0, 1, 1, 1]]),
    ]);
    assert_eq!(stack_after(&array), vec!["3", "2", "1"]);
}

#[test]
fn spread_that_fails() {
    assert_eq!(failure(&program(&[&[0, 1, 1, 1]])), UNDERFLOW);
    assert_eq!(failure(&program(&[TRUE, &[0, 1, 1, 1]])), INVALID);
    assert_eq!(failure(&program(&[EMPTY_ARRAY, &[0, 1, 0], &[0, 1, 1, 1]])), INVALID);
}

#[test]
fn negate_and_not() {
    assert_eq!(stack_after(&join(vec![push_integer(5), program(&[&[1, 1, 1, 0]])])), vec!["-5"]);
    assert_eq!(stack_after(&program(&[TRUE, &[1, 1, 1, 0]])), vec!["-1"]);
    assert_eq!(stack_after(&program(&[FALSE, &[1, 1, 1, 0]])), vec!["0"]);
    assert_eq!(stack_after(&join(vec![push_integer(5), program(&[&[1, 1, 1, 1]])])), vec!["-6"]);
    assert_eq!(stack_after(&program(&[TRUE, &[1, 1, 1, 1]])), vec!["false"]);
    assert_eq!(stack_after(&program(&[FALSE, &[1, 1, 1, 1]])), vec!["true"]);
    assert_eq!(
        stack_after(&program(&[TRUE, &[0, 1, 1], &number(3), &[1, 1, 1, 1]])),
        vec!["false"]
    );
    assert_eq!(failure(&program(&[&[1, 1, 1, 0]])), UNDERFLOW);
    assert_eq!(failure(&program(&[&[1, 1, 1, 1]])), UNDERFLOW);
    assert_eq!(failure(&program(&[EMPTY_ARRAY, &[1, 1, 1, 0]])), INVALID);
    assert_eq!(failure(&program(&[EMPTY_ARRAY, &[1, 1, 1, 1]])), INVALID);
}

#[test]
fn arithmetic_on_integers() {
    assert_eq!(stack_after(&binary(&[1, 0, 0, 0], 4, 3)), vec!["7"]);
    assert_eq!(stack_after(&binary(&[1, 0, 0, 1], 4, 3)), vec!["1"]);
    assert_eq!(stack_after(&binary(&[1, 0, 0, 1], 3, 4)), vec!["-1"]);
    assert_eq!(stack_after(&binary(&[1, 0, 1, 0], -4, 3)), vec!["-12"]);
    assert_eq!(stack_after(&binary(&[1, 0, 1, 1], 7, 2)), vec!["3"]);
    assert_eq!(stack_after(&binary(&[1, 0, 1, 1], -7, 2)), vec!["-3"]);
    assert_eq!(stack_after(&binary(&[1, 1, 0, 0], 7, 2)), vec!["1"]);
    assert_eq!(stack_after(&binary(&[1, 1, 0, 0], -7, 2)), vec!["-1"]);
    assert_eq!(stack_after(&binary(&[1, 1, 0, 1], 2, 10)), vec!["1024"]);
    assert_eq!(stack_after(&binary(&[1, 1, 0, 1], -3, 3)), vec!["-27"]);
}

#[test]
fn arithmetic_that_fails() {
    assert_eq!(failure(&binary(&[1, 0, 1, 1], 7, 0)), INVALID);
    assert_eq!(failure(&binary(&[1, 1, 0, 0], 7, 0)), INVALID);
    assert_eq!(failure(&binary(&[1, 1, 0, 1], 2, -1)), INVALID);
    assert_eq!(failure(&program(&[&[1, 0, 0, 0]])), UNDERFLOW);
    assert_eq!(failure(&program(&[TRUE, &[1, 0, 0, 0]])), UNDERFLOW);
    assert_eq!(failure(&program(&[TRUE, EMPTY_ARRAY, &[1, 0, 0, 0]])), INVALID);
    assert_eq!(failure(&program(&[EMPTY_ARRAY, TRUE, &[1, 0, 0, 0]])), INVALID);
}

#[test]
fn booleans_count_as_numbers_in_arithmetic() {
    assert_eq!(stack_after(&program(&[TRUE, TRUE, &[1, 0, 0, 0]])), vec!["2"]);
    assert_eq!(stack_after(&program(&[TRUE, FALSE, &[1, 0, 0, 1]])), vec!["-1"]);
    assert_eq!(stack_after(&program(&[FALSE, TRUE, &[1, 0, 0, 1]])), vec!["1"]);
    assert_eq!(stack_after(&program(&[TRUE, FALSE, &[1, 1, 0, 1]])), vec!["0"]);
    assert_eq!(stack_after(&program(&[FALSE, FALSE, &[1, 1, 0, 1]])), vec!["1"]);
    assert_eq!(stack_after(&program(&[FALSE, TRUE, &[1, 1, 0, 1]])), vec!["1"]);
    assert_eq!(failure(&program(&[FALSE, TRUE, &[1, 0, 1, 1]])), INVALID);
    assert_eq!(
        stack_after(&join(vec![push_integer(5), program(&[TRUE, &[1, 0, 1, 0]])])),
        vec!["5"]
    );
}

#[test]
fn arithmetic_takes_marked_cells() {
    let code = join(vec![
        push_integer(5),
        program(&[&[0, 1, 0]]),
        push_integer(2),
        program(&[&[0, 1, 1], &number(0), &[1, 0, 1, 0]]),
    ]);
    assert_eq!(stack_after(&code), vec!["10"]);
}

#[test]
fn swap_needs_both_immediates() {
    assert_eq!(failure(&program(&[TRUE, &[0, 0, 0, 0, 0]])), INVALID);
    assert_eq!(failure(&program(&[TRUE, &[0, 0, 0, 0, 0], &[]])), INVALID);
    assert_eq!(stack_after(&program(&[TRUE, &[0, 0, 0, 0, 0], &[], &[]])), vec!["true"]);
    assert_eq!(
        stack_after(&program(&[TRUE, FALSE, &[0, 0, 0, 0, 0], &number(1), &number(0)])),
        vec!["false", "true"]
    );
    assert_eq!(failure(&program(&[&[0, 0, 0, 0, 0], &[], &[]])), INVALID);
}

#[test]
fn run_stops_when_the_steps_are_used_up() {
    let code = program(&[TRUE, TRUE, TRUE]);
    let mut machine = Interpreter::new();
    let mut output = String::new();
    assert_eq!(machine.run(&code, 2, &mut output), Ok(Pause::OutOfSteps));
    assert_eq!(machine.ptr(), 2);
    assert_eq!(machine.run(&code, 0, &mut output), Ok(Pause::OutOfSteps));
    assert_eq!(machine.ptr(), 2);
    assert_eq!(machine.run(&code, 1, &mut output), Ok(Pause::Finished));
    assert_eq!(machine.ptr(), 3);
    assert_eq!(machine.run(&code, 0, &mut output), Ok(Pause::Finished));
}

#[test]
fn run_appends_to_the_output() {
    let code = program(&[&[1, 0], &number(1), TRUE, CALL, &[1, 0], &number(0), FALSE, CALL]);
    let mut machine = Interpreter::new();
    let mut output = String::from("> ");
    assert_eq!(machine.run(&code, 100, &mut output), Ok(Pause::Finished));
    assert_eq!(output, "> true\nfalse");
}
