//! Unsigned 256-bit integers, held as 32 little-endian bytes.

use vstd::prelude::*;
use crate::wire::{le_value, le_value_decided_at, pow256};

verus! {

/// An unsigned 256-bit integer.
#[derive(Clone, Copy, Debug)]
pub struct U256 {
    pub le_bytes: [u8; 32],
}

impl View for U256 {
    type V = nat;

    open spec fn view(&self) -> nat {
        le_value(self.le_bytes@)
    }
}

impl PartialEq for U256 {
    fn eq(&self, other: &U256) -> (r: bool) {
        let mut i: usize = 0;
        while i < 32
            invariant
                i <= 32,
                forall|j: int| 0 <= j < i ==> self.le_bytes@[j] == other.le_bytes@[j],
            decreases 32 - i,
        {
            if self.le_bytes[i] != other.le_bytes[i] {
                return false;
            }
            i += 1;
        }
        assert(self.le_bytes@ =~= other.le_bytes@);
        true
    }
}

impl vstd::std_specs::cmp::PartialEqSpecImpl for U256 {
    open spec fn obeys_eq_spec() -> bool {
        true
    }

    open spec fn eq_spec(&self, other: &U256) -> bool {
        self.le_bytes@ == other.le_bytes@
    }
}

/// `primitive_types::U256::checked_add`: the sum of the two numbers, or
/// `None` where it does not fit in 256 bits.
#[verifier::external_body]
fn checked_add_le(a: &[u8; 32], b: &[u8; 32]) -> (r: Option<[u8; 32]>)
    ensures
        r.is_some() <==> le_value(a@) + le_value(b@) < pow256(32),
        r matches Some(sum) ==> le_value(sum@) == le_value(a@) + le_value(b@),
{
    let x = primitive_types::U256::from_little_endian(a);
    let sum = x.checked_add(primitive_types::U256::from_little_endian(b))?;
    let mut out = [0u8; 32];
    sum.to_little_endian(&mut out);
    Some(out)
}

/// `primitive_types::U256::checked_mul`: the product of the number and the
/// factor, or `None` where it does not fit in 256 bits.
#[verifier::external_body]
fn checked_mul_le(a: &[u8; 32], factor: u32) -> (r: Option<[u8; 32]>)
    ensures
        r.is_some() <==> le_value(a@) * factor < pow256(32),
        r matches Some(product) ==> le_value(product@) == le_value(a@) * factor,
{
    let x = primitive_types::U256::from_little_endian(a);
    let product = x.checked_mul(primitive_types::U256::from(factor))?;
    let mut out = [0u8; 32];
    product.to_little_endian(&mut out);
    Some(out)
}

/// `primitive_types::U256::checked_div`: the quotient rounded down, or `None`
/// where the divisor is zero.
#[verifier::external_body]
fn checked_div_le(a: &[u8; 32], divisor: u32) -> (r: Option<[u8; 32]>)
    ensures
        r.is_some() <==> divisor != 0,
        r matches Some(quotient) ==> le_value(quotient@) == le_value(a@) / (divisor as nat),
{
    let x = primitive_types::U256::from_little_endian(a);
    let quotient = x.checked_div(primitive_types::U256::from(divisor))?;
    let mut out = [0u8; 32];
    quotient.to_little_endian(&mut out);
    Some(out)
}

impl U256 {
    /// The first number that 256 bits cannot hold.
    pub open spec fn limit() -> nat {
        pow256(32)
    }

    /// Zero.
    pub fn zero() -> (r: U256)
        ensures
            r@ == 0,
    {
        let r = U256 { le_bytes: [0u8; 32] };
        proof {
            zero_bytes_spell_zero(r.le_bytes@);
        }
        r
    }

    /// The integer that 32 little-endian bytes spell.
    pub fn from_le_bytes(le_bytes: [u8; 32]) -> (r: U256)
        ensures
            r@ == le_value(le_bytes@),
            r.le_bytes@ == le_bytes@,
    {
        U256 { le_bytes }
    }

    /// The 32 little-endian bytes of the integer.
    pub fn to_le_bytes(&self) -> (r: [u8; 32])
        ensures
            r@ == self.le_bytes@,
            le_value(r@) == self@,
    {
        self.le_bytes
    }

    /// Reads the integer whose 32 little-endian bytes start at `at`.
    pub fn read(bytes: &[u8], at: usize) -> (r: U256)
        requires
            at + 32 <= bytes@.len(),
        ensures
            r.le_bytes@ == bytes@.subrange(at as int, at + 32),
    {
        let len = bytes.len();
        let mut out = [0u8; 32];
        let mut i: usize = 0;
        while i < 32
            invariant
                i <= 32,
                len == bytes@.len(),
                at + 32 <= len,
                forall|j: int| 0 <= j < i ==> out@[j] == bytes@[at + j],
            decreases 32 - i,
        {
            out[i] = bytes[at + i];
            i += 1;
        }
        assert(out@ =~= bytes@.subrange(at as int, at + 32));
        U256 { le_bytes: out }
    }

    /// Whether `self` is smaller than `other`.
    pub fn less_than(&self, other: &U256) -> (r: bool)
        ensures
            r == (self@ < other@),
    {
        let mut i: usize = 32;
        while i > 0
            invariant
                i <= 32,
                forall|j: int| i <= j < 32 ==> self.le_bytes@[j] == other.le_bytes@[j],
            decreases i,
        {
            i -= 1;
            if self.le_bytes[i] < other.le_bytes[i] {
                proof {
                    le_value_decided_at(self.le_bytes@, other.le_bytes@, i as int);
                }
                return true;
            }
            if self.le_bytes[i] > other.le_bytes[i] {
                proof {
                    le_value_decided_at(other.le_bytes@, self.le_bytes@, i as int);
                }
                return false;
            }
        }
        assert(self.le_bytes@ =~= other.le_bytes@);
        false
    }

    /// Whether `self` is greater than `other`.
    pub fn greater_than(&self, other: &U256) -> (r: bool)
        ensures
            r == (self@ > other@),
    {
        other.less_than(self)
    }

    /// The sum, or `None` where it does not fit in 256 bits.
    pub fn checked_add(&self, other: &U256) -> (r: Option<U256>)
        ensures
            r.is_some() <==> self@ + other@ < U256::limit(),
            r matches Some(sum) ==> sum@ == self@ + other@,
    {
        match checked_add_le(&self.le_bytes, &other.le_bytes) {
            Some(le_bytes) => Some(U256 { le_bytes }),
            None => None,
        }
    }

    /// The product with a 32-bit factor, or `None` where it does not fit in
    /// 256 bits.
    pub fn checked_mul_u32(&self, factor: u32) -> (r: Option<U256>)
        ensures
            r.is_some() <==> self@ * factor < U256::limit(),
            r matches Some(product) ==> product@ == self@ * factor,
    {
        match checked_mul_le(&self.le_bytes, factor) {
            Some(le_bytes) => Some(U256 { le_bytes }),
            None => None,
        }
    }

    /// The quotient by a 32-bit divisor, rounded down, or `None` where the
    /// divisor is zero.
    pub fn checked_div_u32(&self, divisor: u32) -> (r: Option<U256>)
        ensures
            r.is_some() <==> divisor != 0,
            r matches Some(quotient) ==> quotient@ == self@ / (divisor as nat),
    {
        match checked_div_le(&self.le_bytes, divisor) {
            Some(le_bytes) => Some(U256 { le_bytes }),
            None => None,
        }
    }
}

/// A string of zero bytes spells zero.
pub proof fn zero_bytes_spell_zero(s: Seq<u8>)
    requires
        forall|i: int| 0 <= i < s.len() ==> s[i] == 0,
    ensures
        le_value(s) == 0,
    decreases s.len(),
{
    if s.len() > 0 {
        zero_bytes_spell_zero(s.drop_first());
    }
}

} // verus!
