//! Trusted wrappers around the arbitrary-precision integer crate. Each
//! wrapper's contract states, over the specs of `encoding`, exactly what the
//! called functions compute; nothing else in the crate touches the bignum
//! library.
use super::encoding::{be_val, neg_bytes, radix_ok, radix_val, raw_be};
use num_traits::ToPrimitive;
use vstd::prelude::*;

verus! {

/// Relies on `num_bigint::BigUint::parse_bytes` (backed by
/// `BigUint::from_str_radix`): it drops one leading `+` unless another `+`
/// follows, then demands at least one byte, all digits of the radix; and on
/// `BigUint::to_bytes_be`: minimal big-endian bytes, a single zero byte for
/// zero. Underscores would be skipped by the parser, so they are excluded
/// here; callers strip them beforehand.
#[verifier::external_body]
pub(crate) fn parse_radix_bytes(digits: &[u8], radix: u32) -> (r: Option<Vec<u8>>)
    requires
        radix == 2 || radix == 10 || radix == 16,
        forall|i: int| 0 <= i < digits@.len() ==> digits@[i] != 0x5f,
    ensures
        r is Some <==> radix_ok(digits@, radix as nat),
        r is Some ==> r->0@ == raw_be(radix_val(digits@, radix as nat)),
{
    num_bigint::BigUint::parse_bytes(digits, radix).map(|n| n.to_bytes_be())
}

/// Relies on `num_bigint::BigInt::to_signed_bytes_be` for a negative value:
/// the minimal big-endian two's-complement encoding. `BigUint::from_bytes_be`
/// and `BigInt::from_biguint` only rebuild the magnitude from its big-endian
/// bytes.
#[verifier::external_body]
pub(crate) fn negative_signed_bytes_be(magnitude: &[u8]) -> (r: Vec<u8>)
    requires
        be_val(magnitude@) > 0,
    ensures
        r@ == neg_bytes(be_val(magnitude@)),
{
    let n = num_bigint::BigInt::from_biguint(
        num_bigint::Sign::Minus,
        num_bigint::BigUint::from_bytes_be(magnitude),
    );
    n.to_signed_bytes_be()
}

/// Relies on `num_bigint::BigUint::from_bytes_be` and
/// `num_traits::ToPrimitive::to_u64`: the value of the big-endian bytes when
/// it fits in 64 bits, `None` otherwise.
#[verifier::external_body]
pub(crate) fn be_bytes_to_u64(bytes: &[u8]) -> (r: Option<u64>)
    ensures
        r is Some <==> be_val(bytes@) <= u64::MAX,
        r is Some ==> r->0 == be_val(bytes@),
{
    num_bigint::BigUint::from_bytes_be(bytes).to_u64()
}

} // verus!
