use vstd::prelude::*;
use crate::error::ItertoolsError;
use num_bigint::BigInt;
use num_traits::{Signed, ToPrimitive};

verus! {

/// 256 to the power `n`.
pub open spec fn pow256(n: nat) -> int
    decreases n,
{
    if n == 0 { 1 } else { 256 * pow256((n - 1) as nat) }
}

/// The unsigned value of little-endian base-256 digits.
pub open spec fn unsigned_le(b: Seq<u8>) -> int
    decreases b.len(),
{
    if b.len() == 0 { 0 } else { b[0] as int + 256 * unsigned_le(b.drop_first()) }
}

/// The value of a little-endian two's-complement byte string.
pub open spec fn signed_le(b: Seq<u8>) -> int {
    if b.len() > 0 && b.last() > 0x7f {
        unsigned_le(b) - pow256(b.len())
    } else {
        unsigned_le(b)
    }
}

/// An integer of arbitrary precision, held as little-endian two's-complement bytes.
#[derive(Debug)]
pub struct Integer {
    pub bytes: Vec<u8>,
}

impl Integer {
    pub open spec fn value(&self) -> int {
        signed_le(self.bytes@)
    }
}

/// Relies on num_bigint's `from_signed_bytes_le`, `+` on `BigInt` and
/// `to_signed_bytes_le`: the bytes of the sum of two integers.
#[verifier::external_body]
fn bigint_add(a: &Integer, b: &Integer) -> (r: Integer)
    ensures
        r.value() == a.value() + b.value(),
{
    let x = BigInt::from_signed_bytes_le(&a.bytes);
    let y = BigInt::from_signed_bytes_le(&b.bytes);
    Integer { bytes: (x + y).to_signed_bytes_le() }
}

/// Relies on num_traits' `ToPrimitive::to_usize` for `BigInt`: the value when
/// it lies in `usize`'s range, `None` otherwise.
#[verifier::external_body]
fn bigint_to_usize(a: &Integer) -> (r: Option<usize>)
    ensures
        0 <= a.value() <= usize::MAX ==> r == Some(a.value() as usize),
        !(0 <= a.value() <= usize::MAX) ==> r is None,
{
    BigInt::from_signed_bytes_le(&a.bytes).to_usize()
}

/// Relies on num_traits' `ToPrimitive::to_i64` for `BigInt`: the value when
/// it lies in `i64`'s range, `None` otherwise.
#[verifier::external_body]
fn bigint_to_i64(a: &Integer) -> (r: Option<i64>)
    ensures
        i64::MIN <= a.value() <= i64::MAX ==> r == Some(a.value() as i64),
        !(i64::MIN <= a.value() <= i64::MAX) ==> r is None,
{
    BigInt::from_signed_bytes_le(&a.bytes).to_i64()
}

/// Relies on num_traits' `Signed::is_negative` for `BigInt`.
#[verifier::external_body]
fn bigint_is_negative(a: &Integer) -> (r: bool)
    ensures
        r == (a.value() < 0),
{
    BigInt::from_signed_bytes_le(&a.bytes).is_negative()
}

/// Relies on num_bigint's `From<i64>` for `BigInt` and `to_signed_bytes_le`.
#[verifier::external_body]
fn bigint_from_i64(v: i64) -> (r: Integer)
    ensures
        r.value() == v as int,
{
    Integer { bytes: BigInt::from(v).to_signed_bytes_le() }
}

impl Integer {
    /// The integer with value `v`.
    pub fn from_i64(v: i64) -> (r: Integer)
        ensures
            r.value() == v as int,
    {
        bigint_from_i64(v)
    }

    /// The integer whose two's-complement little-endian bytes are `bytes`.
    pub fn from_bytes(bytes: Vec<u8>) -> (r: Integer)
        ensures
            r.bytes@ == bytes@,
            r.value() == signed_le(bytes@),
    {
        Integer { bytes }
    }

    /// The value as an `i64`, where it fits.
    pub fn to_i64(&self) -> (r: Option<i64>)
        ensures
            i64::MIN <= self.value() <= i64::MAX ==> r == Some(self.value() as i64),
            !(i64::MIN <= self.value() <= i64::MAX) ==> r is None,
    {
        bigint_to_i64(self)
    }

    /// The value as a `usize`, where it fits.
    pub fn to_usize(&self) -> (r: Option<usize>)
        ensures
            0 <= self.value() <= usize::MAX ==> r == Some(self.value() as usize),
            !(0 <= self.value() <= usize::MAX) ==> r is None,
    {
        bigint_to_usize(self)
    }

    pub fn is_negative(&self) -> (r: bool)
        ensures
            r == (self.value() < 0),
    {
        bigint_is_negative(self)
    }

    /// The sum `self + other`.
    pub fn add(&self, other: &Integer) -> (r: Integer)
        ensures
            r.value() == self.value() + other.value(),
    {
        bigint_add(self, other)
    }

    /// A copy of this integer.
    pub fn duplicate(&self) -> (r: Integer)
        ensures
            r.value() == self.value(),
            r.bytes@ == self.bytes@,
    {
        Integer { bytes: self.bytes.clone() }
    }
}

/// Reads a size argument: a negative one is refused with `negative`, one
/// above `isize::MAX` with `Overflow`.
pub fn size_arg(v: &Integer, negative: ItertoolsError) -> (r: Result<usize, ItertoolsError>)
    ensures
        v.value() < 0 ==> r == Err::<usize, ItertoolsError>(negative),
        v.value() > isize::MAX ==> r == Err::<usize, ItertoolsError>(ItertoolsError::Overflow),
        0 <= v.value() <= isize::MAX ==> r == Ok::<usize, ItertoolsError>(v.value() as usize),
{
    if v.is_negative() {
        return Err(negative);
    }
    match v.to_usize() {
        Some(n) if n <= isize::MAX as usize => Ok(n),
        _ => Err(ItertoolsError::Overflow),
    }
}

} // verus!
