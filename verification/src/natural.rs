//! Arbitrary-precision natural numbers.
//!
//! A [`Natural`] keeps its digits as plain bytes, least significant first, so
//! that its mathematical value is a short recursive definition. Arithmetic is
//! done by `num_bigint::BigUint`; the functions that hand the digits to it and
//! take the digits of the result back are trusted, and each says so.
//!
//! All of them rest on the two conversions of `BigUint`:
//! `BigUint::from_bytes_le` reads a string of bytes as [`le_value`] does, the
//! empty string as zero, and `BigUint::to_bytes_le` writes a string that it
//! reads back as the same number.

use num_bigint::BigUint;
use num_traits::ToPrimitive;
use vstd::arithmetic::power2::pow2;
use vstd::prelude::*;
use vstd::std_specs::cmp::PartialEqSpecImpl;

verus! {

/// The number that a little-endian string of base-256 digits denotes.
pub open spec fn le_value(bytes: Seq<u8>) -> nat
    decreases bytes.len(),
{
    if bytes.len() == 0 {
        0
    } else {
        bytes[0] as nat + 256 * le_value(bytes.drop_first())
    }
}

/// An arbitrary-precision natural number.
#[derive(Debug)]
pub struct Natural {
    pub(crate) bytes: Vec<u8>,
}

impl View for Natural {
    type V = nat;

    closed spec fn view(&self) -> nat {
        le_value(self.bytes@)
    }
}

impl Clone for Natural {
    fn clone(&self) -> (r: Self)
        ensures
            r@ == self@,
    {
        Natural { bytes: self.bytes.clone() }
    }
}

impl PartialEq for Natural {
    /// Whether two numbers are equal.
    fn eq(&self, other: &Self) -> (r: bool) {
        self.eq_digits(other)
    }
}

impl Eq for Natural {

}

impl PartialEqSpecImpl for Natural {
    open spec fn obeys_eq_spec() -> bool {
        true
    }

    open spec fn eq_spec(&self, other: &Self) -> bool {
        self@ == other@
    }
}

impl Natural {
    /// The number zero.
    pub fn zero() -> (r: Natural)
        ensures
            r@ == 0,
    {
        Natural { bytes: Vec::new() }
    }

    /// Trusted: `BigUint::from(u64)` is the same number, and
    /// `BigUint::to_bytes_le` returns its base-256 digits, least significant
    /// first.
    #[verifier::external_body]
    fn digits_of_u64(v: u64) -> (r: Natural)
        ensures
            r@ == v,
    {
        Natural { bytes: BigUint::from(v).to_bytes_le() }
    }

    /// The number that an unsigned machine integer holds.
    pub fn from_u64(v: u64) -> (r: Natural)
        ensures
            r@ == v,
    {
        Natural::digits_of_u64(v)
    }

    /// Trusted: `BigUint`'s `==` holds exactly of equal numbers;
    /// `BigUint::from_bytes_le` reads base-256 digits, least significant first.
    #[verifier::external_body]
    fn eq_digits(&self, other: &Natural) -> (r: bool)
        ensures
            r == (self@ == other@),
    {
        BigUint::from_bytes_le(&self.bytes) == BigUint::from_bytes_le(&other.bytes)
    }

    /// Trusted: `BigUint`'s `+` is addition of natural numbers.
    #[verifier::external_body]
    pub(crate) fn sum(&self, other: &Natural) -> (r: Natural)
        ensures
            r@ == self@ + other@,
    {
        Natural {
            bytes: (BigUint::from_bytes_le(&self.bytes) + BigUint::from_bytes_le(
                &other.bytes,
            )).to_bytes_le(),
        }
    }

    /// Trusted: `BigUint`'s `<<` by `n` multiplies by two to the power `n`.
    #[verifier::external_body]
    pub(crate) fn shifted_left(&self, n: usize) -> (r: Natural)
        ensures
            r@ == self@ * pow2(n as nat),
    {
        Natural { bytes: (BigUint::from_bytes_le(&self.bytes) << n).to_bytes_le() }
    }

    /// Trusted: `ToPrimitive::to_u128` on a `BigUint` returns the number where
    /// it is below two to the power 128, and `None` elsewhere.
    #[verifier::external_body]
    fn to_u128_digits(&self) -> (r: Option<u128>)
        ensures
            match r {
                Some(v) => v == self@,
                None => self@ > u128::MAX,
            },
    {
        BigUint::from_bytes_le(&self.bytes).to_u128()
    }

    /// Whether the number is below two to the power 128.
    pub(crate) fn fits_u128(&self) -> (r: bool)
        ensures
            r == (self@ <= u128::MAX),
    {
        self.to_u128_digits().is_some()
    }

    /// The number as a machine index, where it fits in one.
    pub fn to_usize(&self) -> (r: Option<usize>)
        ensures
            match r {
                Some(v) => v == self@,
                None => self@ > usize::MAX,
            },
    {
        match self.to_u128_digits() {
            Some(v) => if v <= usize::MAX as u128 {
                Some(v as usize)
            } else {
                None
            },
            None => None,
        }
    }
}

} // verus!
