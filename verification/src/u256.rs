//! Calls into the `primitive-types` crate, whose `U256` does the arithmetic.
//!
//! Verus does not read these bodies: each contract is what the crate's source
//! shows of the function that the body calls.

use vstd::prelude::*;
use vstd::arithmetic::power::pow;
use vstd::arithmetic::power2::pow2;
use primitive_types::U256;
use crate::word::{Word, modulus, be_value, byte_at};
use crate::text::{hex_number, lower_hex};

verus! {

/// `U256::overflowing_add`, without the overflow flag: the sum modulo 2^256.
#[verifier::external_body]
pub(crate) fn overflowing_add(a: Word, b: Word) -> (r: Word)
    ensures
        r@ == (a@ + b@) % modulus(),
{
    let (s, _) = U256([a.w0, a.w1, a.w2, a.w3]).overflowing_add(U256([b.w0, b.w1, b.w2, b.w3]));
    Word { w0: s.0[0], w1: s.0[1], w2: s.0[2], w3: s.0[3] }
}

/// `U256::overflowing_sub`, without the overflow flag: the difference modulo
/// 2^256.
#[verifier::external_body]
pub(crate) fn overflowing_sub(a: Word, b: Word) -> (r: Word)
    ensures
        r@ == ((a@ + modulus() - b@) as nat) % modulus(),
{
    let (s, _) = U256([a.w0, a.w1, a.w2, a.w3]).overflowing_sub(U256([b.w0, b.w1, b.w2, b.w3]));
    Word { w0: s.0[0], w1: s.0[1], w2: s.0[2], w3: s.0[3] }
}

/// `U256::overflowing_mul`, without the overflow flag: the product modulo
/// 2^256.
#[verifier::external_body]
pub(crate) fn overflowing_mul(a: Word, b: Word) -> (r: Word)
    ensures
        r@ == (a@ * b@) % modulus(),
{
    let (s, _) = U256([a.w0, a.w1, a.w2, a.w3]).overflowing_mul(U256([b.w0, b.w1, b.w2, b.w3]));
    Word { w0: s.0[0], w1: s.0[1], w2: s.0[2], w3: s.0[3] }
}

/// `U256`'s `/`: the quotient.  The crate panics on a zero divisor, which
/// `requires` leaves out.
#[verifier::external_body]
pub(crate) fn div(a: Word, b: Word) -> (r: Word)
    requires
        b@ != 0,
    ensures
        r@ == a@ / b@,
{
    let s = U256([a.w0, a.w1, a.w2, a.w3]) / U256([b.w0, b.w1, b.w2, b.w3]);
    Word { w0: s.0[0], w1: s.0[1], w2: s.0[2], w3: s.0[3] }
}

/// `U256`'s `%`: the remainder.  The crate panics on a zero divisor, which
/// `requires` leaves out.
#[verifier::external_body]
pub(crate) fn rem(a: Word, b: Word) -> (r: Word)
    requires
        b@ != 0,
    ensures
        r@ == a@ % b@,
{
    let s = U256([a.w0, a.w1, a.w2, a.w3]) % U256([b.w0, b.w1, b.w2, b.w3]);
    Word { w0: s.0[0], w1: s.0[1], w2: s.0[2], w3: s.0[3] }
}

/// `U256::overflowing_pow`, without the overflow flag: the power modulo
/// 2^256, computed by squaring with wrapping products.
#[verifier::external_body]
pub(crate) fn overflowing_pow(a: Word, e: Word) -> (r: Word)
    ensures
        r@ as int == pow(a@ as int, e@) % (modulus() as int),
{
    let (s, _) = U256([a.w0, a.w1, a.w2, a.w3]).overflowing_pow(U256([e.w0, e.w1, e.w2, e.w3]));
    Word { w0: s.0[0], w1: s.0[1], w2: s.0[2], w3: s.0[3] }
}

/// `U256`'s `<<` by a `usize`: the bits that leave at the top are lost.
#[verifier::external_body]
pub(crate) fn shl(a: Word, shift: usize) -> (r: Word)
    requires
        shift < 256,
    ensures
        r@ == (a@ * pow2(shift as nat)) % modulus(),
{
    let s = U256([a.w0, a.w1, a.w2, a.w3]) << shift;
    Word { w0: s.0[0], w1: s.0[1], w2: s.0[2], w3: s.0[3] }
}

/// `U256`'s `>>` by a `usize`: zeros enter at the top.
#[verifier::external_body]
pub(crate) fn shr(a: Word, shift: usize) -> (r: Word)
    requires
        shift < 256,
    ensures
        r@ == a@ / pow2(shift as nat),
{
    let s = U256([a.w0, a.w1, a.w2, a.w3]) >> shift;
    Word { w0: s.0[0], w1: s.0[1], w2: s.0[2], w3: s.0[3] }
}

/// `U256::byte`: byte 0 is the least significant.  The crate panics on an
/// index past the word, which `requires` leaves out.
#[verifier::external_body]
pub(crate) fn byte(a: Word, index: usize) -> (r: u8)
    requires
        index < 32,
    ensures
        r == byte_at(a, index as nat),
{
    U256([a.w0, a.w1, a.w2, a.w3]).byte(index)
}

/// `U256::from_big_endian`: the number that the bytes spell, most significant
/// first.  The crate panics on more than 32 bytes, which `requires` leaves
/// out.
#[verifier::external_body]
pub(crate) fn from_big_endian(bytes: &[u8]) -> (r: Word)
    requires
        bytes@.len() <= 32,
    ensures
        r@ == be_value(bytes@),
{
    let s = U256::from_big_endian(bytes);
    Word { w0: s.0[0], w1: s.0[1], w2: s.0[2], w3: s.0[3] }
}

/// `U256::from_str_radix`, for radix 16: after one optional `0x`, up to 64
/// hexadecimal digits of either case give their value; any other text is an
/// error, which comes back as `None`.
#[verifier::external_body]
pub(crate) fn from_str_radix(text: &str, radix: u32) -> (r: Option<Word>)
    requires
        radix == 16,
    ensures
        match r {
            Some(w) => hex_number(text@) == Some(w@),
            None => hex_number(text@).is_none(),
        },
{
    match U256::from_str_radix(text, radix) {
        Ok(s) => Some(Word { w0: s.0[0], w1: s.0[1], w2: s.0[2], w3: s.0[3] }),
        Err(_) => None,
    }
}

/// `U256`'s `LowerHex`: the value in lower-case hexadecimal digits, without
/// leading zeros and without a prefix; `0` for zero.
#[verifier::external_body]
pub(crate) fn lower_hex_text(a: Word) -> (r: String)
    ensures
        r@ == lower_hex(a@),
{
    format!("{:x}", U256([a.w0, a.w1, a.w2, a.w3]))
}

} // verus!
