use num_bigint::{BigInt, Sign, ToBigInt};
use num_traits::ToPrimitive;
use vstd::prelude::*;

use crate::text::signed_decimal;

verus! {

/// An integer without bounds: a sign and the bytes of the magnitude, the least significant
/// byte first.
#[derive(Debug)]
pub struct Int {
    pub negative: bool,
    pub magnitude: Vec<u8>,
}

/// The number that bytes denote, the least significant byte first.
pub open spec fn magnitude_value(bytes: Seq<u8>) -> nat
    decreases bytes.len(),
{
    if bytes.len() == 0 {
        0
    } else {
        bytes[0] as nat + 256 * magnitude_value(bytes.drop_first())
    }
}

/// The integer that a sign and a magnitude denote.
pub open spec fn signed_value(negative: bool, bytes: Seq<u8>) -> int {
    if negative {
        -(magnitude_value(bytes) as int)
    } else {
        magnitude_value(bytes) as int
    }
}

impl View for Int {
    type V = int;

    open spec fn view(&self) -> int {
        signed_value(self.negative, self.magnitude@)
    }
}

/// The value of an ASCII digit or letter as a digit, where it has one.
pub open spec fn byte_digit(b: u8) -> Option<nat> {
    if 48 <= b <= 57 {
        Some((b - 48) as nat)
    } else if 97 <= b <= 122 {
        Some((b - 97 + 10) as nat)
    } else if 65 <= b <= 90 {
        Some((b - 65 + 10) as nat)
    } else {
        None
    }
}

/// The number that digits denote, the most significant digit first; underscores do not count.
pub open spec fn digits_value(digits: Seq<u8>, radix: nat) -> nat
    decreases digits.len(),
{
    if digits.len() == 0 {
        0
    } else if digits.last() == 95 {
        digits_value(digits.drop_last(), radix)
    } else {
        digits_value(digits.drop_last(), radix) * radix + byte_digit(digits.last())->0
    }
}

/// What follows the sign of a written number.
pub open spec fn unsigned_part(buf: Seq<u8>) -> Seq<u8> {
    if buf.len() > 0 && (buf[0] == 43 || buf[0] == 45) {
        buf.drop_first()
    } else {
        buf
    }
}

/// Whether bytes are a number in the given radix: digits, with a sign before them or not, and
/// with underscores after the first digit or not.
pub open spec fn is_number(buf: Seq<u8>, radix: nat) -> bool {
    let digits = unsigned_part(buf);
    &&& digits.len() > 0
    &&& digits[0] != 95
    &&& forall|i: int|
        0 <= i < digits.len() ==> (#[trigger] digits[i] == 95 || (byte_digit(digits[i]) is Some
            && byte_digit(digits[i])->0 < radix))
}

/// The number that bytes denote in the given radix.
pub open spec fn number_value(buf: Seq<u8>, radix: nat) -> int {
    let value = digits_value(unsigned_part(buf), radix) as int;
    if buf[0] == 45 {
        -value
    } else {
        value
    }
}

/// `BigInt::parse_bytes` of num-bigint reads a number in a radix from 2 to 36. It returns
/// `None` for what is not a number, and otherwise the integer, here as sign and magnitude.
#[verifier::external_body]
fn big_parse(buf: &[u8], radix: u32) -> (r: Option<(bool, Vec<u8>)>)
    requires
        2 <= radix <= 36,
    ensures
        r is Some <==> is_number(buf@, radix as nat),
        r matches Some(n) ==> signed_value(n.0, n.1@) == number_value(buf@, radix as nat),
{
    let n = BigInt::parse_bytes(buf, radix)?;
    let (sign, bytes) = n.to_bytes_le();
    Some((sign == Sign::Minus, bytes))
}

/// `ToBigInt::to_bigint` of num-bigint turns a machine integer into the `BigInt` of the same
/// value, here given as the bytes of its magnitude.
#[verifier::external_body]
fn big_from_u64(num: u64) -> (r: Vec<u8>)
    ensures
        magnitude_value(r@) == num,
{
    num.to_bigint().unwrap().to_bytes_le().1
}

/// `BigInt * u32` of num-bigint is the product, here of a magnitude.
#[verifier::external_body]
fn big_mul(bytes: &Vec<u8>, factor: u32) -> (r: Vec<u8>)
    ensures
        magnitude_value(r@) == magnitude_value(bytes@) * factor,
{
    (BigInt::from_bytes_le(Sign::Plus, bytes) * factor).to_bytes_le().1
}

/// `BigInt + u32` of num-bigint is the sum, here with a magnitude.
#[verifier::external_body]
fn big_add(bytes: &Vec<u8>, addend: u32) -> (r: Vec<u8>)
    ensures
        magnitude_value(r@) == magnitude_value(bytes@) + addend,
{
    (BigInt::from_bytes_le(Sign::Plus, bytes) + addend).to_bytes_le().1
}

/// `ToPrimitive::to_i128` of num-traits on a `BigInt` gives the integer where an `i128` can hold
/// it, and `None` otherwise.
#[verifier::external_body]
fn big_to_i128(negative: bool, bytes: &Vec<u8>) -> (r: Option<i128>)
    ensures
        r is Some <==> i128::MIN <= signed_value(negative, bytes@) <= i128::MAX,
        r matches Some(n) ==> n == signed_value(negative, bytes@),
{
    let sign = if negative { Sign::Minus } else { Sign::Plus };
    BigInt::from_bytes_le(sign, bytes).to_i128()
}

/// `ToPrimitive::to_u128` of num-traits on a `BigInt` gives the integer where a `u128` can hold
/// it, and `None` otherwise.
#[verifier::external_body]
fn big_to_u128(negative: bool, bytes: &Vec<u8>) -> (r: Option<u128>)
    ensures
        r is Some <==> 0 <= signed_value(negative, bytes@) <= u128::MAX,
        r matches Some(n) ==> n == signed_value(negative, bytes@),
{
    let sign = if negative { Sign::Minus } else { Sign::Plus };
    BigInt::from_bytes_le(sign, bytes).to_u128()
}

/// `BigInt` of num-bigint is displayed in decimal notation, with a minus sign before a negative
/// number.
#[verifier::external_body]
fn big_to_string(negative: bool, bytes: &Vec<u8>) -> (r: String)
    ensures
        r@ == signed_decimal(signed_value(negative, bytes@)),
{
    let sign = if negative { Sign::Minus } else { Sign::Plus };
    BigInt::from_bytes_le(sign, bytes).to_string()
}

fn is_zero(bytes: &Vec<u8>) -> (r: bool)
    ensures
        r == (magnitude_value(bytes@) == 0),
{
    let mut i: usize = 0;
    assert(bytes@.skip(0) =~= bytes@);
    while i < bytes.len()
        invariant
            i <= bytes@.len(),
            (magnitude_value(bytes@) == 0) == (magnitude_value(bytes@.skip(i as int)) == 0),
        decreases bytes@.len() - i,
    {
        assert(bytes@.skip(i as int).drop_first() =~= bytes@.skip(i + 1));
        assert(bytes@.skip(i as int)[0] == bytes@[i as int]);
        if bytes[i] != 0 {
            return false;
        }
        i = i + 1;
    }
    assert(bytes@.skip(i as int).len() == 0);
    true
}

impl Int {
    /// The number zero.
    pub fn new() -> (r: Self)
        ensures
            r@ == 0,
    {
        Int { negative: false, magnitude: Vec::new() }
    }

    /// The number that `buf` denotes in the given radix.
    pub fn parse(buf: &[u8], radix: u32) -> (r: Self)
        requires
            2 <= radix <= 36,
            is_number(buf@, radix as nat),
        ensures
            r@ == number_value(buf@, radix as nat),
    {
        Self::parse_helper(buf, radix)
    }

    /// The number that `buf` denotes in the given radix, whatever its size.
    pub fn parse_arbitrary(buf: &[u8], radix: u32) -> (r: Self)
        requires
            2 <= radix <= 36,
            is_number(buf@, radix as nat),
        ensures
            r@ == number_value(buf@, radix as nat),
    {
        Self::parse_helper(buf, radix)
    }

    fn parse_helper(buf: &[u8], radix: u32) -> (r: Self)
        requires
            2 <= radix <= 36,
            is_number(buf@, radix as nat),
        ensures
            r@ == number_value(buf@, radix as nat),
    {
        let (negative, magnitude) = big_parse(buf, radix).unwrap();
        Int { negative, magnitude }
    }

    /// The integer with the value of `num`.
    pub fn from_arbitrary(num: u64) -> (r: Self)
        ensures
            r@ == num,
    {
        Self::from_helper(num)
    }

    fn from_helper(num: u64) -> (r: Self)
        ensures
            r@ == num,
    {
        Int { negative: false, magnitude: big_from_u64(num) }
    }

    /// A copy of the integer.
    pub fn copy(&self) -> (r: Self)
        ensures
            r@ == self@,
    {
        Int { negative: self.negative, magnitude: self.magnitude.clone() }
    }

    /// Whether the integer is below zero.
    pub fn is_negative(&self) -> (r: bool)
        ensures
            r == (self@ < 0),
    {
        self.negative && !is_zero(&self.magnitude)
    }

    /// The integer with the opposite sign.
    pub fn negated(self) -> (r: Self)
        ensures
            r@ == -self@,
    {
        Int { negative: !self.negative, magnitude: self.magnitude }
    }

    /// The integer with one more digit in the given radix.
    pub fn with_digit(&self, radix: u32, digit: u32) -> (r: Self)
        requires
            self@ >= 0,
        ensures
            r@ == self@ * radix + digit,
    {
        proof {
            assert(magnitude_value(self.magnitude@) == self@);
        }
        let scaled: Vec<u8> = big_mul(&self.magnitude, radix);
        Int { negative: false, magnitude: big_add(&scaled, digit) }
    }

    /// The integer as an `i128`, where it fits.
    pub fn to_i128(&self) -> (r: Option<i128>)
        ensures
            r is Some <==> i128::MIN <= self@ <= i128::MAX,
            r matches Some(n) ==> n == self@,
    {
        big_to_i128(self.negative, &self.magnitude)
    }

    /// The integer as a `u128`, where it fits.
    pub fn to_u128(&self) -> (r: Option<u128>)
        ensures
            r is Some <==> 0 <= self@ <= u128::MAX,
            r matches Some(n) ==> n == self@,
    {
        big_to_u128(self.negative, &self.magnitude)
    }

    /// The integer as an `i8`, where it fits.
    pub fn to_i8(&self) -> (r: Option<i8>)
        ensures
            r is Some <==> i8::MIN <= self@ <= i8::MAX,
            r matches Some(n) ==> n == self@,
    {
        match self.to_i128() {
            Some(n) if i8::MIN as i128 <= n && n <= i8::MAX as i128 => Some(n as i8),
            _ => None,
        }
    }

    /// The integer as an `i16`, where it fits.
    pub fn to_i16(&self) -> (r: Option<i16>)
        ensures
            r is Some <==> i16::MIN <= self@ <= i16::MAX,
            r matches Some(n) ==> n == self@,
    {
        match self.to_i128() {
            Some(n) if i16::MIN as i128 <= n && n <= i16::MAX as i128 => Some(n as i16),
            _ => None,
        }
    }

    /// The integer as an `i32`, where it fits.
    pub fn to_i32(&self) -> (r: Option<i32>)
        ensures
            r is Some <==> i32::MIN <= self@ <= i32::MAX,
            r matches Some(n) ==> n == self@,
    {
        match self.to_i128() {
            Some(n) if i32::MIN as i128 <= n && n <= i32::MAX as i128 => Some(n as i32),
            _ => None,
        }
    }

    /// The integer as an `i64`, where it fits.
    pub fn to_i64(&self) -> (r: Option<i64>)
        ensures
            r is Some <==> i64::MIN <= self@ <= i64::MAX,
            r matches Some(n) ==> n == self@,
    {
        match self.to_i128() {
            Some(n) if i64::MIN as i128 <= n && n <= i64::MAX as i128 => Some(n as i64),
            _ => None,
        }
    }

    /// The integer as a `u8`, where it fits.
    pub fn to_u8(&self) -> (r: Option<u8>)
        ensures
            r is Some <==> 0 <= self@ <= u8::MAX,
            r matches Some(n) ==> n == self@,
    {
        match self.to_u128() {
            Some(n) if n <= u8::MAX as u128 => Some(n as u8),
            _ => None,
        }
    }

    /// The integer as a `u16`, where it fits.
    pub fn to_u16(&self) -> (r: Option<u16>)
        ensures
            r is Some <==> 0 <= self@ <= u16::MAX,
            r matches Some(n) ==> n == self@,
    {
        match self.to_u128() {
            Some(n) if n <= u16::MAX as u128 => Some(n as u16),
            _ => None,
        }
    }

    /// The integer as a `u32`, where it fits.
    pub fn to_u32(&self) -> (r: Option<u32>)
        ensures
            r is Some <==> 0 <= self@ <= u32::MAX,
            r matches Some(n) ==> n == self@,
    {
        match self.to_u128() {
            Some(n) if n <= u32::MAX as u128 => Some(n as u32),
            _ => None,
        }
    }

    /// The integer as a `u64`, where it fits.
    pub fn to_u64(&self) -> (r: Option<u64>)
        ensures
            r is Some <==> 0 <= self@ <= u64::MAX,
            r matches Some(n) ==> n == self@,
    {
        match self.to_u128() {
            Some(n) if n <= u64::MAX as u128 => Some(n as u64),
            _ => None,
        }
    }

    /// The integer as a `usize`, where it fits.
    pub fn to_usize(&self) -> (r: Option<usize>)
        ensures
            r is Some <==> 0 <= self@ <= usize::MAX,
            r matches Some(n) ==> n == self@,
    {
        match self.to_u128() {
            Some(n) if n <= usize::MAX as u128 => Some(n as usize),
            _ => None,
        }
    }

    /// The decimal text of the integer.
    pub fn to_text(&self) -> (r: String)
        ensures
            r@ == signed_decimal(self@),
    {
        big_to_string(self.negative, &self.magnitude)
    }
}

impl Default for Int {
    fn default() -> (r: Self)
        ensures
            r@ == 0,
    {
        Self::new()
    }
}

} // verus!
