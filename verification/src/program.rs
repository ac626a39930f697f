//! Programs: the list of instructions that a program text encodes.

use crate::instruction::{
    lemma_scan_instruction, scan, Instruction, ParseInstructionError, ParsedInstruction, Scan,
    Scanner,
};
use vstd::prelude::*;

verus! {

/// A program text that is no program at all.
#[derive(Debug, Clone, Copy, PartialEq, Eq, Structural)]
pub enum SyntaxError {
    /// The text does not begin with `/`.
    NotNoop,
}

impl SyntaxError {
    /// The message of the error.
    pub fn message(&self) -> (r: String)
        ensures
            r@ == "Doesn't start at /"@,
    {
        String::from_str("Doesn't start at /")
    }
}

/// Why a program text could not be read.
#[derive(Debug, Clone, Copy, PartialEq, Eq, Structural)]
pub enum ParseError {
    /// The text as a whole is malformed.
    Syntax(SyntaxError),
    /// One instruction is malformed.
    Instruction(ParseInstructionError),
}

/// The bit strings of a list of instructions.
pub open spec fn program_model(program: Seq<Instruction>) -> Seq<Seq<bool>> {
    program.map_values(|i: Instruction| i@)
}

/// The instructions that a text holds from `pos` on, or the error that
/// scanning them runs into.
pub open spec fn scan_program(text: Seq<char>, pos: int) -> Result<Seq<Seq<bool>>, ParseError>
    decreases text.len() - pos,
    via scan_program_ends
{
    match scan(text, pos, Seq::empty(), 0) {
        Scan::Instruction { bits, next } => match scan_program(text, next) {
            Ok(rest) => Ok(seq![bits] + rest),
            Err(e) => Err(e),
        },
        Scan::Unfinished => Err(ParseError::Instruction(ParseInstructionError::UnfinishedInstruction)),
        Scan::Stopped => Ok(Seq::empty()),
    }
}

/// Scanning goes on behind an instruction, which is not empty: the rest of
/// the text gets shorter.
#[via_fn]
proof fn scan_program_ends(text: Seq<char>, pos: int) {
    if 0 <= pos <= text.len() {
        lemma_scan_instruction(text, pos, Seq::empty(), 0);
    }
}

/// The program that a text encodes: the text begins with `/`, and the
/// instructions follow.
pub open spec fn parse_model(text: Seq<char>) -> Result<Seq<Seq<bool>>, ParseError> {
    if text.len() == 0 || text[0] != '/' {
        Err(ParseError::Syntax(SyntaxError::NotNoop))
    } else {
        scan_program(text, 1)
    }
}

/// The instructions read so far, put before what the rest of the text yields.
spec fn after(done: Seq<Seq<bool>>, rest: Result<Seq<Seq<bool>>, ParseError>) -> Result<
    Seq<Seq<bool>>,
    ParseError,
> {
    match rest {
        Ok(more) => Ok(done + more),
        Err(e) => Err(e),
    }
}

/// Reads the program that a text encodes.
pub fn parse(path: String) -> (r: Result<Vec<Instruction>, ParseError>)
    ensures
        match parse_model(path@) {
            Ok(program) => r matches Ok(found) && program_model(found@) == program,
            Err(e) => r == Err::<Vec<Instruction>, ParseError>(e),
        },
{
    let mut scanner = Scanner::new(path.as_str());
    match scanner.next() {
        Some(c) => {
            if c != '/' {
                return Err(ParseError::Syntax(SyntaxError::NotNoop));
            }
        },
        None => {
            return Err(ParseError::Syntax(SyntaxError::NotNoop));
        },
    }
    let mut instructions: Vec<Instruction> = Vec::new();
    proof {
        assert(program_model(instructions@) =~= Seq::empty());
        let rest = scan_program(path@, 1);
        assert(after(Seq::empty(), rest) == rest) by {
            if let Ok(more) = rest {
                assert(Seq::<Seq<bool>>::empty() + more =~= more);
            }
        }
    }
    loop
        invariant
            scanner.text() == path@,
            0 <= scanner.position() <= path@.len(),
            parse_model(path@) == after(
                program_model(instructions@),
                scan_program(path@, scanner.position()),
            ),
        decreases path@.len() - scanner.position(),
    {
        let ghost pos = scanner.position();
        let ghost done = program_model(instructions@);
        proof {
            lemma_scan_instruction(path@, pos, Seq::empty(), 0);
        }
        match scanner.parse_instruction() {
            ParsedInstruction::Instruction(instruction) => {
                proof {
                    let bits = instruction@;
                    let rest = scan_program(path@, scanner.position());
                    assert(program_model(instructions@.push(instruction)) =~= done.push(bits));
                    if let Ok(more) = rest {
                        assert(done + (seq![bits] + more) =~= done.push(bits) + more);
                    }
                }
                instructions.push(instruction);
            },
            ParsedInstruction::Error(e) => {
                return Err(ParseError::Instruction(e));
            },
            ParsedInstruction::CodePartStopped => {
                proof {
                    assert(done + Seq::<Seq<bool>>::empty() =~= done);
                }
                return Ok(instructions);
            },
        }
    }
}

/// The text of one bit: its token, `.` for 0 and `..` for 1, and the slash
/// that commits it.
pub open spec fn bit_text(bit: bool) -> Seq<char> {
    if bit {
        seq!['.', '.', '/']
    } else {
        seq!['.', '/']
    }
}

/// The text of a string of bits.
pub open spec fn bits_text(bits: Seq<bool>) -> Seq<char>
    decreases bits.len(),
{
    if bits.len() == 0 {
        Seq::empty()
    } else {
        bit_text(bits[0]) + bits_text(bits.drop_first())
    }
}

/// The text of a list of instructions: the bits of each, and a slash that
/// ends it.
pub open spec fn instructions_text(program: Seq<Seq<bool>>) -> Seq<char>
    decreases program.len(),
{
    if program.len() == 0 {
        Seq::empty()
    } else {
        bits_text(program[0]).push('/') + instructions_text(program.drop_first())
    }
}

/// The text that encodes a program: the slash at the start, and the
/// instructions.
pub open spec fn encoding(program: Seq<Seq<bool>>) -> Seq<char> {
    seq!['/'] + instructions_text(program)
}

/// Whether a piece of text stands in a text at a position.
spec fn stands_at(text: Seq<char>, pos: int, piece: Seq<char>) -> bool {
    &&& 0 <= pos
    &&& pos + piece.len() <= text.len()
    &&& forall|i: int| 0 <= i < piece.len() ==> text[pos + i] == #[trigger] piece[i]
}

/// Where two pieces stand one behind the other, each stands at its place.
proof fn lemma_stands_apart(text: Seq<char>, pos: int, first: Seq<char>, second: Seq<char>)
    requires
        stands_at(text, pos, first + second),
    ensures
        stands_at(text, pos, first),
        stands_at(text, pos + first.len(), second),
{
    let both = first + second;
    assert forall|i: int| 0 <= i < first.len() implies text[pos + i] == #[trigger] first[i] by {
        assert(both[i] == first[i]);
    }
    assert forall|i: int| 0 <= i < second.len() implies text[pos + first.len() + i]
        == #[trigger] second[i] by {
        assert(both[first.len() + i] == second[i]);
    }
}

/// Scanning over the text of some bits commits these bits and nothing else.
proof fn lemma_scan_bits(text: Seq<char>, pos: int, done: Seq<bool>, bits: Seq<bool>)
    requires
        stands_at(text, pos, bits_text(bits)),
    ensures
        scan(text, pos, done, 0) == scan(text, pos + bits_text(bits).len(), done + bits, 0),
    decreases bits.len(),
{
    if bits.len() == 0 {
        assert(done + bits =~= done);
    } else {
        let first = bit_text(bits[0]);
        let rest = bits.drop_first();
        lemma_stands_apart(text, pos, first, bits_text(rest));
        assert(text[pos + 0] == first[0]);
        assert(text[pos + 1] == first[1]);
        if bits[0] {
            assert(text[pos + 2] == first[2]);
        }
        reveal_with_fuel(scan, 4);
        assert(scan(text, pos, done, 0) == scan(text, pos + first.len(), done.push(bits[0]), 0));
        lemma_scan_bits(text, pos + first.len(), done.push(bits[0]), rest);
        assert(done.push(bits[0]) + rest =~= done + bits);
    }
}

/// Scanning over the text of the instructions of a program, to the end of
/// the text, yields the program.
proof fn lemma_scan_instructions(text: Seq<char>, pos: int, program: Seq<Seq<bool>>)
    requires
        stands_at(text, pos, instructions_text(program)),
        pos + instructions_text(program).len() == text.len(),
        forall|i: int| 0 <= i < program.len() ==> (#[trigger] program[i]).len() > 0,
    ensures
        scan_program(text, pos) == Ok::<Seq<Seq<bool>>, ParseError>(program),
    decreases program.len(),
{
    if program.len() == 0 {
        assert(program =~= Seq::empty());
    } else {
        let bits = program[0];
        let rest = program.drop_first();
        let here = bits_text(bits).push('/');
        lemma_stands_apart(text, pos, here, instructions_text(rest));
        assert(here =~= bits_text(bits) + seq!['/']);
        lemma_stands_apart(text, pos, bits_text(bits), seq!['/']);
        lemma_scan_bits(text, pos, Seq::empty(), bits);
        let end = pos + bits_text(bits).len();
        assert(text[end + 0] == seq!['/'][0]);
        assert(Seq::<bool>::empty() + bits =~= bits);
        assert(scan(text, pos, Seq::empty(), 0) == Scan::Instruction { bits, next: end + 1 });
        assert forall|i: int| 0 <= i < rest.len() implies (#[trigger] rest[i]).len() > 0 by {
            assert(rest[i] == program[i + 1]);
        }
        lemma_scan_instructions(text, end + 1, rest);
        assert(seq![bits] + rest =~= program);
    }
}

/// Every program whose instructions have a bit or more has a text: the text
/// that [`encoding`] writes is read as the program.
pub proof fn lemma_parse_encoding(program: Seq<Seq<bool>>)
    requires
        forall|i: int| 0 <= i < program.len() ==> (#[trigger] program[i]).len() > 0,
    ensures
        parse_model(encoding(program)) == Ok::<Seq<Seq<bool>>, ParseError>(program),
{
    let text = encoding(program);
    assert(text[0] == '/');
    assert(stands_at(text, 1, instructions_text(program)));
    lemma_scan_instructions(text, 1, program);
}

} // verus!
