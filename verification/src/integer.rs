//! Arbitrary-precision signed integers.
//!
//! An [`Integer`] keeps its digits as plain bytes in two's complement, least
//! significant first. Arithmetic is done by `num_bigint::BigInt`; the
//! functions that hand the digits to it and take the digits of the result
//! back are trusted, and each says what it takes on trust.
//!
//! All of them rest on the two conversions of `BigInt`:
//! `BigInt::from_signed_bytes_le` reads a string of bytes as
//! [`signed_le_value`] does, the empty string as zero, and
//! `BigInt::to_signed_bytes_le` writes a string that it reads back as the
//! same number. Where a natural number goes in or comes out, the conversions
//! are `BigUint::from_bytes_le` and `BigUint::to_bytes_le`.
//!
//! The results of `BigInt` are as large as they need to be: a power with a
//! large exponent takes the memory that its digits fill.

use crate::comparison::{compare_ints, Comparison};
use crate::natural::{le_value, Natural};
use core::cmp::Ordering;
use num_bigint::{BigInt, BigUint};
use num_traits::Pow;
use vstd::arithmetic::power::pow;
use vstd::prelude::*;
use vstd::std_specs::cmp::PartialEqSpecImpl;

verus! {

/// The integer that a little-endian string of base-256 digits denotes in
/// two's complement: the top bit of the last digit is the sign.
pub open spec fn signed_le_value(bytes: Seq<u8>) -> int {
    if bytes.len() > 0 && bytes.last() >= 128 {
        le_value(bytes) - pow(256, bytes.len())
    } else {
        le_value(bytes) as int
    }
}

/// The absolute value of an integer.
pub open spec fn magnitude(a: int) -> nat {
    if a < 0 {
        (-a) as nat
    } else {
        a as nat
    }
}

/// The quotient of `a` by `b`, rounded towards zero.
pub open spec fn truncated_quotient(a: int, b: int) -> int
    recommends
        b != 0,
{
    if (a < 0) == (b < 0) {
        (magnitude(a) / magnitude(b)) as int
    } else {
        -((magnitude(a) / magnitude(b)) as int)
    }
}

/// What is left of `a` after the division by `b` that rounds towards zero; it
/// has the sign of `a`.
pub open spec fn truncated_remainder(a: int, b: int) -> int
    recommends
        b != 0,
{
    a - b * truncated_quotient(a, b)
}

/// The largest exponent that a base other than -1, 0 and 1 can be raised to:
/// two to the power 128, less one.
pub open spec fn max_exponent() -> nat {
    0xffff_ffff_ffff_ffff_ffff_ffff_ffff_ffff
}

/// The character of a decimal digit.
pub open spec fn digit_char(d: nat) -> char
    recommends
        d < 10,
{
    ((48 + d) as u8) as char
}

/// The decimal digits of a natural number, without leading zeros.
pub open spec fn decimal_digits(n: nat) -> Seq<char>
    decreases n,
{
    if n < 10 {
        seq![digit_char(n)]
    } else {
        decimal_digits(n / 10).push(digit_char(n % 10))
    }
}

/// The decimal form of an integer: a minus sign where it is negative, then
/// the digits of its magnitude.
pub open spec fn decimal(i: int) -> Seq<char> {
    if i < 0 {
        seq!['-'] + decimal_digits(magnitude(i))
    } else {
        decimal_digits(magnitude(i))
    }
}

/// The number of a decimal digit, or `None` for any other character.
pub open spec fn digit_number(c: char) -> Option<nat> {
    if 48 <= c as u32 <= 57 {
        Some((c as u32 - 48) as nat)
    } else {
        None
    }
}

/// The number that a string of decimal digits denotes. Underscores among the
/// digits count for nothing; any other character makes the string denote
/// nothing.
pub open spec fn digits_number(body: Seq<char>) -> Option<nat>
    decreases body.len(),
{
    if body.len() == 0 {
        Some(0)
    } else {
        match digits_number(body.drop_last()) {
            Some(n) => if body.last() == '_' {
                Some(n)
            } else {
                match digit_number(body.last()) {
                    Some(d) => Some(10 * n + d),
                    None => None,
                }
            },
            None => None,
        }
    }
}

/// The integer that a text denotes in base ten, or `None` where it denotes
/// none. A text that denotes an integer is a sign, `-` or `+`, or no sign,
/// and then a digit, which digits and underscores may follow.
pub open spec fn parsed_decimal(text: Seq<char>) -> Option<int> {
    let signed = text.len() > 0 && (text[0] == '-' || text[0] == '+');
    let body = if signed {
        text.drop_first()
    } else {
        text
    };
    if body.len() == 0 || body[0] == '_' {
        None
    } else {
        match digits_number(body) {
            Some(n) => Some(
                if text[0] == '-' {
                    -(n as int)
                } else {
                    n as int
                },
            ),
            None => None,
        }
    }
}

/// An arbitrary-precision signed integer.
#[derive(Debug)]
pub struct Integer {
    bytes: Vec<u8>,
}

impl View for Integer {
    type V = int;

    closed spec fn view(&self) -> int {
        signed_le_value(self.bytes@)
    }
}

impl Clone for Integer {
    fn clone(&self) -> (r: Self)
        ensures
            r@ == self@,
    {
        Integer { bytes: self.bytes.clone() }
    }
}

impl PartialEq for Integer {
    /// Whether two integers are equal.
    fn eq(&self, other: &Self) -> (r: bool) {
        matches!(self.order_digits(other), Comparison::Equal)
    }
}

impl Eq for Integer {

}

impl PartialEqSpecImpl for Integer {
    open spec fn obeys_eq_spec() -> bool {
        true
    }

    open spec fn eq_spec(&self, other: &Self) -> bool {
        self@ == other@
    }
}

impl Integer {
    /// Trusted: `BigInt::from(u64)` is the same number, and
    /// `BigInt::to_signed_bytes_le` returns its two's complement digits in
    /// base 256, least significant first.
    #[verifier::external_body]
    fn digits_of_u64(v: u64) -> (r: Integer)
        ensures
            r@ == v,
    {
        Integer { bytes: BigInt::from(v).to_signed_bytes_le() }
    }

    /// Trusted: `BigInt::from(BigUint)` is the same number.
    #[verifier::external_body]
    fn digits_of_natural(n: &Natural) -> (r: Integer)
        ensures
            r@ == n@,
    {
        Integer { bytes: BigInt::from(BigUint::from_bytes_le(&n.bytes)).to_signed_bytes_le() }
    }

    /// Trusted: `BigInt::to_biguint` returns the same number where it is not
    /// negative, and `None` where it is.
    #[verifier::external_body]
    fn natural_digits(&self) -> (r: Option<Natural>)
        ensures
            match r {
                Some(n) => n@ == self@,
                None => self@ < 0,
            },
    {
        match BigInt::from_signed_bytes_le(&self.bytes).to_biguint() {
            Some(n) => Some(Natural { bytes: n.to_bytes_le() }),
            None => None,
        }
    }

    /// Trusted: `BigInt`'s unary `-` negates.
    #[verifier::external_body]
    fn neg_digits(&self) -> (r: Integer)
        ensures
            r@ == -self@,
    {
        Integer { bytes: (-BigInt::from_signed_bytes_le(&self.bytes)).to_signed_bytes_le() }
    }

    /// Trusted: `BigInt`'s `!` flips every bit of the two's complement form,
    /// which takes `x` to `-x - 1`.
    #[verifier::external_body]
    fn not_digits(&self) -> (r: Integer)
        ensures
            r@ == -self@ - 1,
    {
        Integer { bytes: (!BigInt::from_signed_bytes_le(&self.bytes)).to_signed_bytes_le() }
    }

    /// Trusted: `BigInt`'s `+` is addition of integers.
    #[verifier::external_body]
    fn add_digits(&self, other: &Integer) -> (r: Integer)
        ensures
            r@ == self@ + other@,
    {
        let a = BigInt::from_signed_bytes_le(&self.bytes);
        let b = BigInt::from_signed_bytes_le(&other.bytes);
        Integer { bytes: (a + b).to_signed_bytes_le() }
    }

    /// Trusted: `BigInt`'s `-` is subtraction of integers.
    #[verifier::external_body]
    fn sub_digits(&self, other: &Integer) -> (r: Integer)
        ensures
            r@ == self@ - other@,
    {
        let a = BigInt::from_signed_bytes_le(&self.bytes);
        let b = BigInt::from_signed_bytes_le(&other.bytes);
        Integer { bytes: (a - b).to_signed_bytes_le() }
    }

    /// Trusted: `BigInt`'s `*` is multiplication of integers.
    #[verifier::external_body]
    fn mul_digits(&self, other: &Integer) -> (r: Integer)
        ensures
            r@ == self@ * other@,
    {
        let a = BigInt::from_signed_bytes_le(&self.bytes);
        let b = BigInt::from_signed_bytes_le(&other.bytes);
        Integer { bytes: (a * b).to_signed_bytes_le() }
    }

    /// Trusted: `BigInt`'s `/` divides the magnitudes and gives the quotient
    /// the sign of the exact result, so it rounds towards zero. It panics on
    /// a zero divisor, which `requires` leaves out.
    #[verifier::external_body]
    fn div_digits(&self, other: &Integer) -> (r: Integer)
        requires
            other@ != 0,
        ensures
            r@ == truncated_quotient(self@, other@),
    {
        let a = BigInt::from_signed_bytes_le(&self.bytes);
        let b = BigInt::from_signed_bytes_le(&other.bytes);
        Integer { bytes: (a / b).to_signed_bytes_le() }
    }

    /// Trusted: `BigInt`'s `%` is what is left after its `/`, with the sign
    /// of the dividend. It panics on a zero divisor, which `requires` leaves
    /// out.
    #[verifier::external_body]
    fn rem_digits(&self, other: &Integer) -> (r: Integer)
        requires
            other@ != 0,
        ensures
            r@ == truncated_remainder(self@, other@),
    {
        let a = BigInt::from_signed_bytes_le(&self.bytes);
        let b = BigInt::from_signed_bytes_le(&other.bytes);
        Integer { bytes: (a % b).to_signed_bytes_le() }
    }

    /// Trusted: `Pow<BigUint>` for `BigInt` raises to a natural power, with
    /// any base to the power zero being one. It panics where the magnitude of
    /// the base is two or more and the exponent does not fit in 128 bits,
    /// which `requires` leaves out.
    #[verifier::external_body]
    fn pow_digits(&self, exponent: &Natural) -> (r: Integer)
        requires
            -1 <= self@ <= 1 || exponent@ <= max_exponent(),
        ensures
            r@ == pow(self@, exponent@),
    {
        let a = BigInt::from_signed_bytes_le(&self.bytes);
        Integer { bytes: Pow::pow(a, BigUint::from_bytes_le(&exponent.bytes)).to_signed_bytes_le() }
    }

    /// Trusted: `BigInt`'s `Ord` is the order of the integers.
    #[verifier::external_body]
    fn order_digits(&self, other: &Integer) -> (r: Comparison)
        ensures
            r == compare_ints(self@, other@),
    {
        match BigInt::from_signed_bytes_le(&self.bytes).cmp(
            &BigInt::from_signed_bytes_le(&other.bytes),
        ) {
            Ordering::Less => Comparison::Less,
            Ordering::Equal => Comparison::Equal,
            Ordering::Greater => Comparison::Greater,
        }
    }

    /// Trusted: `BigInt`'s `Display` writes a minus sign for a negative
    /// number and then the decimal digits of the magnitude, without leading
    /// zeros.
    #[verifier::external_body]
    fn decimal_of_digits(&self) -> (r: String)
        ensures
            r@ == decimal(self@),
    {
        BigInt::from_signed_bytes_le(&self.bytes).to_string()
    }

    /// Trusted: `BigInt`'s `FromStr` takes one sign off the front, `-` or
    /// `+`, and reads what is left byte by byte in base ten: it skips
    /// underscores, and rejects an empty rest, a rest that begins with an
    /// underscore, and every byte that is neither a digit nor an underscore.
    #[verifier::external_body]
    fn digits_of_decimal(text: &str) -> (r: Option<Integer>)
        ensures
            match r {
                Some(i) => parsed_decimal(text@) == Some(i@),
                None => parsed_decimal(text@) is None,
            },
    {
        match text.parse::<BigInt>() {
            Ok(i) => Some(Integer { bytes: i.to_signed_bytes_le() }),
            Err(_) => None,
        }
    }

    /// The integer that an unsigned machine integer holds.
    pub fn from_u64(v: u64) -> (r: Integer)
        ensures
            r@ == v,
    {
        Integer::digits_of_u64(v)
    }

    /// The integer that a signed machine integer holds.
    pub fn from_i64(v: i64) -> (r: Integer)
        ensures
            r@ == v,
    {
        if v >= 0 {
            Integer::digits_of_u64(v as u64)
        } else {
            let below: u64 = (-(v + 1)) as u64;
            Integer::digits_of_u64(below + 1).neg_digits()
        }
    }

    /// Zero for `false`, one for `true`.
    pub fn from_bool(b: bool) -> (r: Integer)
        ensures
            r@ == if b { 1int } else { 0int },
    {
        Integer::digits_of_u64(if b { 1 } else { 0 })
    }

    /// The integer equal to a natural number.
    pub fn from_natural(n: &Natural) -> (r: Integer)
        ensures
            r@ == n@,
    {
        Integer::digits_of_natural(n)
    }

    /// The natural number equal to this integer, or `None` where it is
    /// negative.
    pub fn to_natural(&self) -> (r: Option<Natural>)
        ensures
            match r {
                Some(n) => self@ >= 0 && n@ == self@,
                None => self@ < 0,
            },
    {
        self.natural_digits()
    }

    /// The integer as a machine index, or `None` where it is negative or does
    /// not fit in one.
    pub fn to_usize(&self) -> (r: Option<usize>)
        ensures
            match r {
                Some(v) => v == self@,
                None => self@ < 0 || self@ > usize::MAX,
            },
    {
        match self.natural_digits() {
            Some(n) => n.to_usize(),
            None => None,
        }
    }

    /// Whether the integer is zero.
    pub fn is_zero(&self) -> (r: bool)
        ensures
            r == (self@ == 0),
    {
        let zero = Integer::digits_of_u64(0);
        matches!(self.order_digits(&zero), Comparison::Equal)
    }

    /// How this integer stands to the other in the order of the integers.
    pub fn compare(&self, other: &Integer) -> (r: Comparison)
        ensures
            r == compare_ints(self@, other@),
    {
        self.order_digits(other)
    }


    /// The integer with the opposite sign.
    pub fn negated(&self) -> (r: Integer)
        ensures
            r@ == -self@,
    {
        self.neg_digits()
    }

    /// The bitwise complement in two's complement, `-x - 1`.
    pub fn complement(&self) -> (r: Integer)
        ensures
            r@ == -self@ - 1,
    {
        self.not_digits()
    }

    /// The sum of two integers.
    pub fn sum(&self, other: &Integer) -> (r: Integer)
        ensures
            r@ == self@ + other@,
    {
        self.add_digits(other)
    }

    /// The difference of two integers.
    pub fn difference(&self, other: &Integer) -> (r: Integer)
        ensures
            r@ == self@ - other@,
    {
        self.sub_digits(other)
    }

    /// The product of two integers.
    pub fn product(&self, other: &Integer) -> (r: Integer)
        ensures
            r@ == self@ * other@,
    {
        self.mul_digits(other)
    }

    /// The quotient rounded towards zero, or `None` where the divisor is zero.
    pub fn quotient(&self, other: &Integer) -> (r: Option<Integer>)
        ensures
            match r {
                Some(q) => other@ != 0 && q@ == truncated_quotient(self@, other@),
                None => other@ == 0,
            },
    {
        if other.is_zero() {
            None
        } else {
            Some(self.div_digits(other))
        }
    }

    /// The remainder of the division that rounds towards zero, or `None`
    /// where the divisor is zero.
    pub fn remainder(&self, other: &Integer) -> (r: Option<Integer>)
        ensures
            match r {
                Some(m) => other@ != 0 && m@ == truncated_remainder(self@, other@),
                None => other@ == 0,
            },
    {
        if other.is_zero() {
            None
        } else {
            Some(self.rem_digits(other))
        }
    }

    /// Whether this integer can be raised to a power: the exponent is not
    /// negative, and it is at most [`max_exponent`] unless the base is -1, 0
    /// or 1.
    pub open spec fn power_defined(base: int, exponent: int) -> bool {
        exponent >= 0 && (-1 <= base <= 1 || exponent <= max_exponent())
    }

    /// This integer raised to a power, or `None` where [`Self::power_defined`]
    /// does not hold.
    pub fn power(&self, exponent: &Integer) -> (r: Option<Integer>)
        ensures
            match r {
                Some(p) => Integer::power_defined(self@, exponent@) && p@ == pow(
                    self@,
                    exponent@ as nat,
                ),
                None => !Integer::power_defined(self@, exponent@),
            },
    {
        match exponent.natural_digits() {
            None => None,
            Some(e) => {
                let two = Integer::digits_of_u64(2);
                let small = matches!(self.order_digits(&two), Comparison::Less) && matches!(
                    two.neg_digits().order_digits(self),
                    Comparison::Less
                );
                if small || e.fits_u128() {
                    Some(self.pow_digits(&e))
                } else {
                    None
                }
            },
        }
    }

    /// The decimal form of the integer.
    pub fn to_decimal(&self) -> (r: String)
        ensures
            r@ == decimal(self@),
    {
        self.decimal_of_digits()
    }

    /// The integer that a text denotes in base ten, as [`parsed_decimal`]
    /// describes it, or `None` where it denotes none.
    pub fn parse(text: &str) -> (r: Option<Integer>)
        ensures
            match r {
                Some(i) => parsed_decimal(text@) == Some(i@),
                None => parsed_decimal(text@) is None,
            },
    {
        Integer::digits_of_decimal(text)
    }
}

/// The decimal digits of a number are digits and nothing else, there is one
/// at least, and they denote the number.
pub proof fn lemma_decimal_digits(n: nat)
    ensures
        decimal_digits(n).len() > 0,
        forall|i: int|
            0 <= i < decimal_digits(n).len() ==> 48 <= (#[trigger] decimal_digits(n)[i]) as u32
                <= 57,
        digits_number(decimal_digits(n)) == Some(n),
    decreases n,
{
    let digits = decimal_digits(n);
    if n < 10 {
        assert(digits.drop_last() =~= Seq::<char>::empty());
        assert(digits_number(digits.drop_last()) == Some(0nat));
        assert(digits.last() == digit_char(n));
    } else {
        lemma_decimal_digits(n / 10);
        assert(digits.drop_last() =~= decimal_digits(n / 10));
        assert(digits.last() == digit_char(n % 10));
    }
}

/// The decimal form of an integer denotes that integer: reading what was
/// written gives the number back.
pub proof fn lemma_decimal_round_trip(i: int)
    ensures
        parsed_decimal(decimal(i)) == Some(i),
{
    let text = decimal(i);
    let digits = decimal_digits(magnitude(i));
    lemma_decimal_digits(magnitude(i));
    assert(48 <= digits[0] as u32 <= 57);
    if i < 0 {
        assert(text[0] == '-');
        assert(text.drop_first() =~= digits);
    } else {
        assert(text[0] == digits[0]);
    }
}

} // verus!
