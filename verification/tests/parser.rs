use pathvm::instruction::{Instruction, ParseInstructionError, ParsedInstruction, Scanner};
use pathvm::program::{parse, ParseError, SyntaxError};

fn bits(bits: &[u8]) -> Instruction {
    let mut i = Instruction::default();
    for b in bits {
        i.add_part(if *b == 1 { ".." } else { "." });
    }
    i
}

fn parsed(text: &str) -> Result<Vec<Instruction>, ParseError> {
    parse(text.to_string())
}

#[test]
fn text_must_begin_with_a_slash() {
    assert_eq!(parsed(""), Err(ParseError::Syntax(SyntaxError::NotNoop)));
    assert_eq!(parsed("./"), Err(ParseError::Syntax(SyntaxError::NotNoop)));
    assert_eq!(parsed("usr/bin"), Err(ParseError::Syntax(SyntaxError::NotNoop)));
}

#[test]
fn tokens_become_bits() {
    assert_eq!(parsed("/./"), Ok(vec![bits(&[0])]));
    assert_eq!(parsed("/../"), Ok(vec![bits(&[1])]));
    assert_eq!(parsed("/./..//"), Ok(vec![bits(&[0, 1])]));
    assert_eq!(parsed("/.//..//"), Ok(vec![bits(&[0]), bits(&[1])]));
    assert_eq!(
        parsed("/.././/./././/"),
        Ok(vec![bits(&[1, 0]), bits(&[0, 0, 0])])
    );
}

#[test]
fn last_instruction_needs_no_closing_slash() {
    assert_eq!(parsed("/./../"), Ok(vec![bits(&[0, 1])]));
    assert_eq!(parsed("/.//../"), Ok(vec![bits(&[0]), bits(&[1])]));
}

#[test]
fn empty_segment_without_bits_ends_the_code() {
    assert_eq!(parsed("//"), Ok(vec![]));
    assert_eq!(parsed("//./"), Ok(vec![]));
    assert_eq!(parsed("/.///../"), Ok(vec![bits(&[0])]));
}

#[test]
fn other_characters_end_the_text() {
    assert_eq!(parsed("/ ./"), Ok(vec![]));
    assert_eq!(parsed("/./x../"), Ok(vec![bits(&[0])]));
    assert_eq!(parsed("/.//program"), Ok(vec![bits(&[0])]));
}

#[test]
fn open_token_is_unfinished() {
    let unfinished = Err(ParseError::Instruction(ParseInstructionError::UnfinishedInstruction));
    assert_eq!(parsed("/."), unfinished);
    assert_eq!(parsed("/.."), unfinished);
    assert_eq!(parsed("/./."), unfinished);
    assert_eq!(parsed("/.x"), unfinished);
    assert_eq!(parsed("/.//..x"), unfinished);
}

#[test]
fn third_dot_is_unfinished() {
    let unfinished = Err(ParseError::Instruction(ParseInstructionError::UnfinishedInstruction));
    assert_eq!(parsed("/.../"), unfinished);
    assert_eq!(parsed("/./.../"), unfinished);
}

#[test]
fn scanner_walks_through_the_text() {
    let mut scanner = Scanner::new("/./..//../");
    assert_eq!(scanner.next(), Some('/'));
    match scanner.parse_instruction() {
        ParsedInstruction::Instruction(i) => assert_eq!(i, bits(&[0, 1])),
        other => panic!("unexpected {:?}", other),
    }
    match scanner.parse_instruction() {
        ParsedInstruction::Instruction(i) => assert_eq!(i, bits(&[1])),
        other => panic!("unexpected {:?}", other),
    }
    assert!(matches!(scanner.parse_instruction(), ParsedInstruction::CodePartStopped));
    assert_eq!(scanner.next(), None);
}

#[test]
fn scanner_reports_an_open_token() {
    let mut scanner = Scanner::new("..");
    assert!(matches!(
        scanner.parse_instruction(),
        ParsedInstruction::Error(ParseInstructionError::UnfinishedInstruction)
    ));
}

#[test]
fn parse_error_messages() {
    assert_eq!(SyntaxError::NotNoop.message(), "Doesn't start at /");
    assert_eq!(
        ParseInstructionError::UnfinishedInstruction.message(),
        "Instruction not finished"
    );
}

#[test]
fn encoded_program_parses_back() {
    let program = vec![bits(&[1, 0]), bits(&[1]), bits(&[0, 0, 1]), bits(&[0, 1, 1, 0, 1, 0, 0, 0])];
    let mut text = String::from("/");
    for instruction in &program {
        for i in 0..instruction.len() {
            text.push_str(if instruction.index(i) { "../" } else { "./" });
        }
        text.push('/');
    }
    assert_eq!(parse(text), Ok(program));
}
