use pathvm::error::{Error, RuntimeError};
use pathvm::instruction::Instruction;
use pathvm::interpreter::Interpreter;
use pathvm::program::parse;
use pathvm::semantics::Pause;
use pathvm::stack_value::StackValue;
use pathvm::value::Value;

fn encode(program: &[&[u8]]) -> String {
    let mut text = String::from("/");
    for instruction in program {
        for bit in instruction.iter() {
            text.push_str(if *bit == 1 { "../" } else { "./" });
        }
        text.push('/');
    }
    text
}

fn number(mut n: u64) -> Vec<u8> {
    let mut bits = Vec::new();
    while n > 0 {
        bits.push((n % 2) as u8);
        n /= 2;
    }
    if bits.is_empty() {
        bits.push(0);
    }
    bits
}

fn execute(text: String, lines: &[&str]) -> (Result<Pause, Error>, String, Interpreter) {
    let program: Vec<Instruction> = parse(text).expect("the program parses");
    let mut machine = Interpreter::new();
    let mut output = String::new();
    let mut next_line = 0;
    loop {
        match machine.run(&program, 10_000, &mut output) {
            Ok(Pause::AwaitingLine) => {
                let line = if next_line < lines.len() { lines[next_line] } else { "" };
                next_line += 1;
                machine.provide_line(line.to_string());
            }
            end => return (end, output, machine),
        }
    }
}

const PUSH_INTEGER: &[u8] = &[0, 0];
const POP_TO_VARIABLE: &[u8] = &[0, 1];
const PUSH_VARIABLE: &[u8] = &[1, 0];
const PUSH_STRING: &[u8] = &[1, 1];
const CALL: &[u8] = &[0, 0, 1];
const PLUS: &[u8] = &[1];
const MINUS: &[u8] = &[0];

#[test]
fn empty_program_does_nothing() {
    let program = parse("/".to_string()).unwrap();
    assert_eq!(program.len(), 0);
    let (end, output, machine) = execute("/".to_string(), &[]);
    assert_eq!(end, Ok(Pause::Finished));
    assert_eq!(output, "");
    assert_eq!(machine.stack().len(), 0);
    assert_eq!(machine.ptr(), 0);
}

#[test]
fn print_line_of_integer_one() {
    let one = number(1);
    let text = encode(&[PUSH_VARIABLE, &one, PUSH_INTEGER, PLUS, &one, CALL]);
    let (end, output, machine) = execute(text, &[]);
    assert_eq!(end, Ok(Pause::Finished));
    assert_eq!(output, "1\n");
    assert_eq!(machine.stack().len(), 0);
}

#[test]
fn literal_path_pops_an_empty_stack() {
    let text = "/..///././/./././/../../.././././././/./../../../../../../../../..".to_string();
    let program = parse(text.clone()).unwrap();
    assert_eq!(program.len(), 1);
    assert_eq!(program[0].len(), 1);
    assert_eq!(program[0].get(0), Some(true));
    let (end, output, _) = execute(text, &[]);
    assert_eq!(end, Err(Error::Runtime(RuntimeError::StackUnderflow)));
    assert_eq!(output, "");
}

#[test]
fn print_line_of_string_hi() {
    let text = encode(&[
        PUSH_VARIABLE,
        &number(1),
        PUSH_STRING,
        &number(2),
        &[0, 1, 1, 0, 1, 0, 0, 0],
        &[0, 1, 1, 0, 1, 0, 0, 1],
        CALL,
    ]);
    let (end, output, _) = execute(text, &[]);
    assert_eq!(end, Ok(Pause::Finished));
    assert_eq!(output, "hi\n");
}

#[test]
fn three_plus_four_prints_seven() {
    let text = encode(&[
        PUSH_VARIABLE,
        &number(1),
        PUSH_INTEGER,
        PLUS,
        &number(3),
        PUSH_INTEGER,
        PLUS,
        &number(4),
        &[1, 0, 0, 0],
        CALL,
    ]);
    let (end, output, _) = execute(text, &[]);
    assert_eq!(end, Ok(Pause::Finished));
    assert_eq!(output, "7\n");
}

#[test]
fn five_equals_five_is_true() {
    let compare = encode(&[
        PUSH_INTEGER,
        PLUS,
        &number(5),
        PUSH_INTEGER,
        PLUS,
        &number(5),
        &[1, 1, 0],
    ]);
    let (end, _, machine) = execute(compare, &[]);
    assert_eq!(end, Ok(Pause::Finished));
    assert_eq!(machine.stack().len(), 1);
    assert!(matches!(machine.stack()[0], StackValue::Value(Value::Boolean(true))));

    let print = encode(&[
        PUSH_VARIABLE,
        &number(1),
        PUSH_INTEGER,
        PLUS,
        &number(5),
        PUSH_INTEGER,
        PLUS,
        &number(5),
        &[1, 1, 0],
        CALL,
    ]);
    let (end, output, _) = execute(print, &[]);
    assert_eq!(end, Ok(Pause::Finished));
    assert_eq!(output, "true\n");
}

#[test]
fn other_selections_of_equal_values_are_false() {
    for (selection, expected) in [([1u8, 0, 1], false), ([1, 1, 0], true), ([1, 1, 1], false)] {
        let text = encode(&[
            PUSH_INTEGER,
            PLUS,
            &number(5),
            PUSH_INTEGER,
            PLUS,
            &number(5),
            &selection,
        ]);
        let (end, _, machine) = execute(text, &[]);
        assert_eq!(end, Ok(Pause::Finished));
        match &machine.stack()[0] {
            StackValue::Value(Value::Boolean(b)) => assert_eq!(*b, expected),
            other => panic!("unexpected cell {:?}", other),
        }
    }
}

#[test]
fn comparison_takes_the_upper_cell_first() {
    // 3 below, 4 on top: the upper cell is compared with the lower, 4 > 3.
    for (selection, expected) in [([1u8, 0, 1], false), ([1, 1, 0], false), ([1, 1, 1], true)] {
        let text = encode(&[
            PUSH_INTEGER,
            PLUS,
            &number(3),
            PUSH_INTEGER,
            PLUS,
            &number(4),
            &selection,
        ]);
        let (_, _, machine) = execute(text, &[]);
        match &machine.stack()[0] {
            StackValue::Value(Value::Boolean(b)) => assert_eq!(*b, expected),
            other => panic!("unexpected cell {:?}", other),
        }
    }
}

#[test]
fn spread_of_empty_array_then_pop_underflows() {
    let text = encode(&[&[0, 1, 1, 0], &[0, 1, 1, 1], &[1]]);
    let (end, output, machine) = execute(text, &[]);
    assert_eq!(end, Err(Error::Runtime(RuntimeError::StackUnderflow)));
    assert_eq!(output, "");
    assert_eq!(machine.stack().len(), 0);
}

#[test]
fn negative_integer_uses_the_sign_immediate() {
    let text = encode(&[PUSH_VARIABLE, &number(1), PUSH_INTEGER, MINUS, &number(6), CALL]);
    let (_, output, _) = execute(text, &[]);
    assert_eq!(output, "-6\n");
}

#[test]
fn subtraction_has_the_upper_value_on_the_left() {
    // 3 below, 10 on top: 10 - 3.
    let text = encode(&[
        PUSH_VARIABLE,
        &number(1),
        PUSH_INTEGER,
        PLUS,
        &number(3),
        PUSH_INTEGER,
        PLUS,
        &number(10),
        &[1, 0, 0, 1],
        CALL,
    ]);
    let (_, output, _) = execute(text, &[]);
    assert_eq!(output, "7\n");
}

#[test]
fn variables_hold_what_was_stored() {
    let text = encode(&[
        PUSH_INTEGER,
        PLUS,
        &number(42),
        POP_TO_VARIABLE,
        &number(100),
        PUSH_VARIABLE,
        &number(1),
        PUSH_VARIABLE,
        &number(100),
        CALL,
    ]);
    let (end, output, _) = execute(text, &[]);
    assert_eq!(end, Ok(Pause::Finished));
    assert_eq!(output, "42\n");
}

#[test]
fn reading_a_missing_variable_is_invalid() {
    let text = encode(&[PUSH_VARIABLE, &number(2)]);
    let (end, _, _) = execute(text, &[]);
    assert_eq!(end, Err(Error::Runtime(RuntimeError::InvalidInstruction)));
}

#[test]
fn removed_variable_is_gone() {
    let text = encode(&[&[0, 0, 0, 1], &number(1), PUSH_VARIABLE, &number(1)]);
    let (end, _, machine) = execute(text, &[]);
    assert_eq!(end, Err(Error::Runtime(RuntimeError::InvalidInstruction)));
    assert_eq!(machine.ptr(), 2);
}

#[test]
fn read_line_returns_the_line_with_its_end() {
    // PrintLn(ReadLn())
    let text = encode(&[PUSH_VARIABLE, &number(1), PUSH_VARIABLE, &number(3), CALL, CALL]);
    let (end, output, _) = execute(text, &["hello\n"]);
    assert_eq!(end, Ok(Pause::Finished));
    assert_eq!(output, "hello\n\n");
}

#[test]
fn jump_lands_on_its_target() {
    // 0: jump 4   (2: push true is passed over)   4: push false
    let text = encode(&[&[1, 0, 0], &number(4), &[0, 1, 0, 1], &[0, 1, 0, 1], &[0, 1, 0, 0]]);
    let (end, _, machine) = execute(text, &[]);
    assert_eq!(end, Ok(Pause::Finished));
    assert_eq!(machine.stack().len(), 1);
    assert!(matches!(machine.stack()[0], StackValue::Value(Value::Boolean(false))));
    assert_eq!(machine.ptr(), 5);
}

#[test]
fn conditional_jump_not_taken_passes_over_the_immediate() {
    // push true; jump-if-false 0; push false
    let text = encode(&[&[0, 1, 0, 1], &[0, 0, 1, 0], &number(0), &[0, 1, 0, 0]]);
    let (end, _, machine) = execute(text, &[]);
    assert_eq!(end, Ok(Pause::Finished));
    assert_eq!(machine.stack().len(), 1);
    assert!(matches!(machine.stack()[0], StackValue::Value(Value::Boolean(false))));
}

#[test]
fn endless_loop_runs_out_of_steps() {
    let program = parse(encode(&[&[1, 0, 0], &number(0)])).unwrap();
    let mut machine = Interpreter::new();
    let mut output = String::new();
    assert_eq!(machine.run(&program, 1000, &mut output), Ok(Pause::OutOfSteps));
    assert_eq!(machine.ptr(), 0);
}

#[test]
fn push_float_is_not_implemented() {
    let (end, _, _) = execute(encode(&[&[0, 0, 0]]), &[]);
    assert_eq!(end, Err(Error::Runtime(RuntimeError::InvalidInstruction)));
}

#[test]
fn unknown_patterns_are_invalid() {
    let (end, _, _) = execute(encode(&[&[1, 0, 0, 0, 0]]), &[]);
    assert_eq!(end, Err(Error::Runtime(RuntimeError::InvalidInstruction)));
    let (end, _, _) = execute(encode(&[&[0, 0, 0, 0, 0, 0]]), &[]);
    assert_eq!(end, Err(Error::Runtime(RuntimeError::InvalidInstruction)));
}

#[test]
fn swap_exchanges_cells_counted_from_the_top() {
    // push true, push false, push false; swap 0 2 -> false false true
    let text = encode(&[
        &[0, 1, 0, 1],
        &[0, 1, 0, 0],
        &[0, 1, 0, 0],
        &[0, 0, 0, 0, 0],
        &number(0),
        &number(2),
    ]);
    let (end, _, machine) = execute(text, &[]);
    assert_eq!(end, Ok(Pause::Finished));
    assert!(matches!(machine.stack()[0], StackValue::Value(Value::Boolean(false))));
    assert!(matches!(machine.stack()[2], StackValue::Value(Value::Boolean(true))));
}

#[test]
fn swap_out_of_range_is_invalid() {
    let text = encode(&[&[0, 1, 0, 1], &[0, 0, 0, 0, 0], &number(0), &number(1)]);
    let (end, _, _) = execute(text, &[]);
    assert_eq!(end, Err(Error::Runtime(RuntimeError::InvalidInstruction)));
}
