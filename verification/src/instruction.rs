//! Instructions: the bit strings that a program text encodes, their readings
//! as numbers, and the scanner that takes them out of the text.

use crate::natural::Natural;
use crate::text::chars_of;
use vstd::arithmetic::power2::{lemma2_to64, lemma_pow2_unfold, pow2};
use vstd::prelude::*;
use vstd::std_specs::cmp::PartialEqSpecImpl;

verus! {

/// The number that a bit string denotes when bit `i` counts two to the power
/// `i`: the first bit is the least significant.
pub open spec fn bits_value(bits: Seq<bool>) -> nat
    decreases bits.len(),
{
    if bits.len() == 0 {
        0
    } else {
        bits_value(bits.drop_last()) + if bits.last() {
            pow2((bits.len() - 1) as nat)
        } else {
            0
        }
    }
}

/// The number that a bit string denotes when the first bit is the most
/// significant.
pub open spec fn msb_first_value(bits: Seq<bool>) -> nat
    decreases bits.len(),
{
    if bits.len() == 0 {
        0
    } else {
        2 * msb_first_value(bits.drop_last()) + if bits.last() {
            1nat
        } else {
            0nat
        }
    }
}

/// The bit string of length `n` whose bit `i` is bit `i` of `v`.
pub open spec fn bits_of(v: nat, n: nat) -> Seq<bool> {
    Seq::new(n, |i: int| (v / pow2(i as nat)) % 2 == 1)
}

/// One instruction: a finite string of bits.
#[derive(Debug)]
pub struct Instruction {
    op: Vec<bool>,
}

impl View for Instruction {
    type V = Seq<bool>;

    closed spec fn view(&self) -> Seq<bool> {
        self.op@
    }
}

impl Clone for Instruction {
    fn clone(&self) -> (r: Self)
        ensures
            r@ == self@,
    {
        Instruction { op: self.op.clone() }
    }
}

impl PartialEq for Instruction {
    /// Whether two instructions have the same bits.
    fn eq(&self, other: &Self) -> (r: bool) {
        if self.op.len() != other.op.len() {
            return false;
        }
        let mut i: usize = 0;
        while i < self.op.len()
            invariant
                i <= self.op.len(),
                self.op.len() == other.op.len(),
                forall|j: int| 0 <= j < i ==> self.op@[j] == other.op@[j],
            decreases self.op.len() - i,
        {
            if self.op[i] != other.op[i] {
                return false;
            }
            i += 1;
        }
        proof {
            assert(self.op@ =~= other.op@);
        }
        true
    }
}

impl Eq for Instruction {

}

impl PartialEqSpecImpl for Instruction {
    open spec fn obeys_eq_spec() -> bool {
        true
    }

    open spec fn eq_spec(&self, other: &Self) -> bool {
        self@ == other@
    }
}

impl Default for Instruction {
    fn default() -> (r: Self)
        ensures
            r@ == Seq::<bool>::empty(),
    {
        Instruction { op: Vec::new() }
    }
}

impl Instruction {
    /// Appends the bit that a token stands for: `.` is 0 and `..` is 1.
    pub fn add_part(&mut self, part: &str)
        requires
            part@ == "."@ || part@ == ".."@,
        ensures
            final(self)@ == old(self)@.push(part@ == ".."@),
    {
        proof {
            reveal_strlit(".");
            reveal_strlit("..");
        }
        let n = part.unicode_len();
        self.op.push(n == 2);
    }

    /// Whether the instruction has no bits.
    pub fn is_empty(&self) -> (r: bool)
        ensures
            r == (self@.len() == 0),
    {
        self.op.len() == 0
    }

    /// The number of bits.
    pub fn len(&self) -> (r: usize)
        ensures
            r == self@.len(),
    {
        self.op.len()
    }

    /// The bit at `index`, or `None` past the end.
    pub fn get(&self, index: usize) -> (r: Option<bool>)
        ensures
            r == if index < self@.len() {
                Some(self@[index as int])
            } else {
                None
            },
    {
        if index < self.op.len() {
            Some(self.op[index])
        } else {
            None
        }
    }

    /// The bit at `index`.
    pub fn index(&self, index: usize) -> (r: bool)
        requires
            index < self@.len(),
        ensures
            r == self@[index as int],
    {
        self.op[index]
    }

    /// The instruction read as a natural number, first bit least significant.
    pub fn to_natural(&self) -> (r: Natural)
        ensures
            r@ == bits_value(self@),
    {
        let mut result = Natural::zero();
        let one = Natural::from_u64(1);
        let mut i: usize = 0;
        while i < self.op.len()
            invariant
                i <= self.op.len(),
                one@ == 1,
                result@ == bits_value(self.op@.take(i as int)),
            decreases self.op.len() - i,
        {
            proof {
                assert(self.op@.take(i + 1).drop_last() =~= self.op@.take(i as int));
            }
            if self.op[i] {
                result = result.sum(&one.shifted_left(i));
            }
            i += 1;
        }
        proof {
            assert(self.op@.take(i as int) =~= self.op@);
        }
        result
    }

    /// The instruction read as a machine index, first bit least significant,
    /// or `None` where the number does not fit in one.
    pub fn to_usize(&self) -> (r: Option<usize>)
        ensures
            match r {
                Some(v) => v == bits_value(self@),
                None => bits_value(self@) > usize::MAX,
            },
    {
        self.to_natural().to_usize()
    }

    /// The first bit, or `None` for an instruction without bits.
    pub fn to_bool(&self) -> (r: Option<bool>)
        ensures
            r == if self@.len() > 0 {
                Some(self@[0])
            } else {
                None
            },
    {
        self.get(0)
    }

    /// The instruction read as a byte, first bit most significant, or `None`
    /// where it does not have exactly eight bits.
    pub fn to_byte(&self) -> (r: Option<u8>)
        ensures
            match r {
                Some(b) => self@.len() == 8 && b == msb_first_value(self@),
                None => self@.len() != 8,
            },
    {
        if self.op.len() != 8 {
            return None;
        }
        let mut result: u8 = 0;
        let mut i: usize = 0;
        proof {
            lemma2_to64();
        }
        while i < 8
            invariant
                i <= 8,
                self.op.len() == 8,
                result as nat == msb_first_value(self.op@.take(i as int)),
                result < pow2(i as nat),
            decreases 8 - i,
        {
            proof {
                assert(self.op@.take(i + 1).drop_last() =~= self.op@.take(i as int));
                lemma_pow2_unfold((i + 1) as nat);
                lemma2_to64();
                if i < 7 {
                    vstd::arithmetic::power2::lemma_pow2_strictly_increases((i + 1) as nat, 8);
                }
            }
            result = result * 2 + if self.op[i] {
                1
            } else {
                0
            };
            i += 1;
        }
        proof {
            assert(self.op@.take(8) =~= self.op@);
        }
        Some(result)
    }
}

/// Every bit string of length `n` denotes a number below two to the power `n`.
pub proof fn lemma_bits_value_bound(bits: Seq<bool>)
    ensures
        bits_value(bits) < pow2(bits.len()),
    decreases bits.len(),
{
    if bits.len() == 0 {
        lemma2_to64();
    } else {
        lemma_bits_value_bound(bits.drop_last());
        lemma_pow2_unfold(bits.len());
    }
}

/// Two bit strings of one length that denote the same number are equal.
pub proof fn lemma_bits_value_injective(a: Seq<bool>, b: Seq<bool>)
    requires
        a.len() == b.len(),
        bits_value(a) == bits_value(b),
    ensures
        a == b,
    decreases a.len(),
{
    if a.len() > 0 {
        lemma_bits_value_bound(a.drop_last());
        lemma_bits_value_bound(b.drop_last());
        assert(a.last() == b.last());
        lemma_bits_value_injective(a.drop_last(), b.drop_last());
        assert(a =~= a.drop_last().push(a.last()));
        assert(b =~= b.drop_last().push(b.last()));
    } else {
        assert(a =~= b);
    }
}

/// Every number below two to the power `n` is denoted by the bit string of
/// length `n` that holds its binary digits.
pub proof fn lemma_bits_value_surjective(v: nat, n: nat)
    requires
        v < pow2(n),
    ensures
        bits_of(v, n).len() == n,
        bits_value(bits_of(v, n)) == v,
    decreases n,
{
    if n == 0 {
        lemma2_to64();
    } else {
        let m = (n - 1) as nat;
        let high = pow2(m);
        lemma_pow2_unfold(n);
        vstd::arithmetic::power2::lemma_pow2_pos(m);
        let low: nat = if v >= high {
            (v - high) as nat
        } else {
            v
        };
        lemma_bits_value_surjective(low, m);
        assert forall|i: int| 0 <= i < m implies #[trigger] bits_of(v, n).drop_last()[i]
            == bits_of(low, m)[i] by {
            if v >= high {
                lemma_shift_ignores_high_bit(low, i as nat, m);
            }
        }
        assert(bits_of(v, n).drop_last() =~= bits_of(low, m));
        assert(bits_of(v, n).last() == (v >= high)) by {
            vstd::arithmetic::div_mod::lemma_fundamental_div_mod_converse(
                v as int,
                high as int,
                if v >= high {
                    1
                } else {
                    0
                },
                low as int,
            );
        }
    }
}

/// Adding two to the power `m` to a number does not change its binary digits
/// below position `m`.
proof fn lemma_shift_ignores_high_bit(low: nat, i: nat, m: nat)
    requires
        i < m,
    ensures
        ((low + pow2(m)) / pow2(i)) % 2 == (low / pow2(i)) % 2,
{
    let d = pow2(i);
    vstd::arithmetic::power2::lemma_pow2_pos(i);
    vstd::arithmetic::power2::lemma_pow2_adds(i, (m - i) as nat);
    let k = pow2((m - i) as nat);
    lemma_pow2_unfold((m - i) as nat);
    let half = pow2((m - i - 1) as nat);
    assert(pow2(m) == d * k);
    assert(k == 2 * half);
    assert((low + pow2(m)) / d == low / d + k) by {
        vstd::arithmetic::div_mod::lemma_fundamental_div_mod(low as int, d as int);
        let q = low as int / d as int;
        let r = low as int % d as int;
        assert(low + d * k == d * (q + k) + r) by (nonlinear_arith)
            requires
                low == d * q + r,
        ;
        vstd::arithmetic::div_mod::lemma_fundamental_div_mod_converse(
            (low + d * k) as int,
            d as int,
            q + k,
            r,
        );
    }
    assert((low / d + 2 * half) % 2 == (low / d) % 2) by {
        vstd::arithmetic::div_mod::lemma_mod_multiples_vanish(half as int, (low / d) as int, 2);
    }
}

/// Reading an instruction as a number is a bijection between the bit strings
/// of each length `n` and the numbers below two to the power `n`: every
/// string denotes such a number, different strings of one length denote
/// different numbers, and every such number is denoted by a string.
pub proof fn lemma_bits_value_bijection(n: nat)
    ensures
        forall|bits: Seq<bool>| bits.len() == n ==> #[trigger] bits_value(bits) < pow2(n),
        forall|a: Seq<bool>, b: Seq<bool>|
            a.len() == n && b.len() == n && #[trigger] bits_value(a) == #[trigger] bits_value(b)
                ==> a == b,
        forall|v: nat|
            v < pow2(n) ==> (#[trigger] bits_of(v, n)).len() == n && bits_value(bits_of(v, n))
                == v,
{
    assert forall|bits: Seq<bool>| bits.len() == n implies #[trigger] bits_value(bits) < pow2(
        n,
    ) by {
        lemma_bits_value_bound(bits);
    }
    assert forall|a: Seq<bool>, b: Seq<bool>|
        a.len() == n && b.len() == n && #[trigger] bits_value(a) == #[trigger] bits_value(
            b,
        ) implies a == b by {
        lemma_bits_value_injective(a, b);
    }
    assert forall|v: nat| v < pow2(n) implies (#[trigger] bits_of(v, n)).len() == n && bits_value(
        bits_of(v, n),
    ) == v by {
        lemma_bits_value_surjective(v, n);
    }
}

/// Why the scanner gave an instruction up.
#[derive(Debug, Clone, Copy, PartialEq, Eq, Structural)]
pub enum ParseInstructionError {
    /// The text ended, or went on with a third dot, inside a bit token.
    UnfinishedInstruction,
}

impl ParseInstructionError {
    /// The message of the error.
    pub fn message(&self) -> (r: String)
        ensures
            r@ == "Instruction not finished"@,
    {
        String::from_str("Instruction not finished")
    }
}

/// What the scanner found at its position.
#[derive(Debug)]
pub enum ParsedInstruction {
    /// One instruction; the scanner stands behind it.
    Instruction(Instruction),
    /// The text breaks off inside an instruction.
    Error(ParseInstructionError),
    /// The program text ends here.
    CodePartStopped,
}

/// What scanning a text from a position yields.
pub enum Scan {
    /// The bits of one instruction, and the position behind it.
    Instruction { bits: Seq<bool>, next: int },
    /// The text breaks off inside a bit token.
    Unfinished,
    /// The program text ends without another instruction.
    Stopped,
}

/// Whether the program text goes on at `pos`: only `.` and `/` belong to it.
pub open spec fn in_code(text: Seq<char>, pos: int) -> bool {
    0 <= pos < text.len() && (text[pos] == '.' || text[pos] == '/')
}

/// Scans one instruction from `pos`, with `bits` already taken and `part`
/// dots of the next bit token read.
///
/// A dot extends the token, which holds two dots at most. A slash behind a
/// token commits it as a bit (one dot is 0, two dots are 1); a slash behind
/// committed bits ends the instruction; a slash behind nothing ends the
/// program. Where the program text ends, an open token is an error, committed
/// bits are an instruction, and nothing is the end of the program.
pub open spec fn scan(text: Seq<char>, pos: int, bits: Seq<bool>, part: nat) -> Scan
    decreases text.len() - pos,
{
    if !in_code(text, pos) {
        if part > 0 {
            Scan::Unfinished
        } else if bits.len() > 0 {
            Scan::Instruction { bits, next: pos }
        } else {
            Scan::Stopped
        }
    } else if text[pos] == '.' {
        if part < 2 {
            scan(text, pos + 1, bits, part + 1)
        } else {
            Scan::Unfinished
        }
    } else if part > 0 {
        scan(text, pos + 1, bits.push(part == 2), 0)
    } else if bits.len() > 0 {
        Scan::Instruction { bits, next: pos + 1 }
    } else {
        Scan::Stopped
    }
}

/// An instruction that the scanner returns is not empty, and the position
/// behind it lies within the text.
pub proof fn lemma_scan_instruction(text: Seq<char>, pos: int, bits: Seq<bool>, part: nat)
    requires
        0 <= pos <= text.len(),
    ensures
        match scan(text, pos, bits, part) {
            Scan::Instruction { bits: found, next } => {
                &&& found.len() > 0
                &&& pos <= next <= text.len()
                &&& bits.len() == 0 ==> pos < next
            },
            _ => true,
        },
    decreases text.len() - pos,
{
    if in_code(text, pos) {
        if text[pos] == '.' {
            if part < 2 {
                lemma_scan_instruction(text, pos + 1, bits, part + 1);
            }
        } else if part > 0 {
            lemma_scan_instruction(text, pos + 1, bits.push(part == 2), 0);
        }
    }
}

/// A program text and a position in it.
pub struct Scanner {
    text: Vec<char>,
    position: usize,
}

impl Scanner {
    /// The text that is scanned.
    pub closed spec fn text(&self) -> Seq<char> {
        self.text@
    }

    /// The position of the next character.
    pub closed spec fn position(&self) -> int {
        self.position as int
    }

    /// The position never leaves the text.
    #[verifier::type_invariant]
    spec fn inv(self) -> bool {
        self.position <= self.text.len()
    }

    /// A scanner at the start of a text.
    pub fn new(path: &str) -> (r: Scanner)
        ensures
            r.text() == path@,
            r.position() == 0,
    {
        let text = chars_of(path);
        Scanner { text, position: 0 }
    }

    /// Takes the next character, if there is one.
    pub fn next(&mut self) -> (r: Option<char>)
        ensures
            final(self).text() == old(self).text(),
            r == if old(self).position() < old(self).text().len() {
                Some(old(self).text()[old(self).position()])
            } else {
                None
            },
            final(self).position() == if r is Some {
                old(self).position() + 1
            } else {
                old(self).position()
            },
    {
        proof {
            use_type_invariant(&*self);
        }
        if self.position < self.text.len() {
            let c = self.text[self.position];
            self.position += 1;
            Some(c)
        } else {
            None
        }
    }

    /// Scans one instruction from the position, as [`scan`] describes, and
    /// moves behind it.
    pub fn parse_instruction(&mut self) -> (r: ParsedInstruction)
        ensures
            final(self).text() == old(self).text(),
            match scan(old(self).text(), old(self).position(), Seq::empty(), 0) {
                Scan::Instruction { bits, next } => {
                    &&& r matches ParsedInstruction::Instruction(i)
                    &&& i@ == bits
                    &&& final(self).position() == next
                },
                Scan::Unfinished => r
                    matches ParsedInstruction::Error(ParseInstructionError::UnfinishedInstruction),
                Scan::Stopped => r is CodePartStopped,
            },
    {
        proof {
            use_type_invariant(&*self);
        }
        let mut instruction = Instruction::default();
        let mut part: usize = 0;
        let ghost goal = scan(self.text@, self.position as int, Seq::empty(), 0);
        proof {
            reveal_strlit(".");
            reveal_strlit("..");
        }
        loop
            invariant
                self.position <= self.text.len(),
                self.text@ == old(self).text@,
                part <= 2,
                goal == scan(old(self).text(), old(self).position(), Seq::empty(), 0),
                goal == scan(self.text@, self.position as int, instruction@, part as nat),
                "."@.len() == 1,
                ".."@.len() == 2,
            decreases self.text.len() - self.position,
        {
            let c = if self.position < self.text.len() {
                self.text[self.position]
            } else {
                ' '
            };
            if c == '.' {
                if part < 2 {
                    part += 1;
                    self.position += 1;
                } else {
                    return ParsedInstruction::Error(ParseInstructionError::UnfinishedInstruction);
                }
            } else if c == '/' {
                if part > 0 {
                    instruction.add_part(
                        if part == 1 {
                            "."
                        } else {
                            ".."
                        },
                    );
                    part = 0;
                    self.position += 1;
                } else if instruction.is_empty() {
                    return ParsedInstruction::CodePartStopped;
                } else {
                    self.position += 1;
                    return ParsedInstruction::Instruction(instruction);
                }
            } else if part > 0 {
                return ParsedInstruction::Error(ParseInstructionError::UnfinishedInstruction);
            } else if instruction.is_empty() {
                return ParsedInstruction::CodePartStopped;
            } else {
                return ParsedInstruction::Instruction(instruction);
            }
        }
    }
}

} // verus!
