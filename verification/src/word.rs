//! The 256-bit word: four 64-bit limbs, read as one natural number.

use vstd::prelude::*;
use vstd::arithmetic::div_mod::{
    lemma_basic_div, lemma_div_denominator, lemma_fundamental_div_mod,
};
use vstd::arithmetic::power::{lemma_pow0, lemma_pow_positive, pow};
use vstd::arithmetic::power2::pow2;
use vstd::math::abs;
use crate::text::{hex_number, lower_hex};
use crate::u256;

verus! {

/// 2^64, the weight of the second limb.
pub open spec fn limb1() -> nat {
    0x1_0000_0000_0000_0000nat
}

/// 2^128, the weight of the third limb.
pub open spec fn limb2() -> nat {
    0x1_0000_0000_0000_0000_0000_0000_0000_0000nat
}

/// 2^192, the weight of the fourth limb.
pub open spec fn limb3() -> nat {
    0x1_0000_0000_0000_0000_0000_0000_0000_0000_0000_0000_0000_0000nat
}

/// 2^256: words are the natural numbers below it.
pub open spec fn modulus() -> nat {
    0x1_0000_0000_0000_0000_0000_0000_0000_0000_0000_0000_0000_0000_0000_0000_0000_0000nat
}

/// 2^255: a word at or above it is negative when read as two's complement.
pub open spec fn sign_bit() -> nat {
    0x8000_0000_0000_0000_0000_0000_0000_0000_0000_0000_0000_0000_0000_0000_0000_0000nat
}

/// A 256-bit unsigned integer.  `w0` is the least significant limb.
#[derive(Clone, Copy, Debug, PartialEq, Eq, Structural)]
pub struct Word {
    pub w0: u64,
    pub w1: u64,
    pub w2: u64,
    pub w3: u64,
}

impl View for Word {
    type V = nat;

    /// The number that the four limbs spell.
    open spec fn view(&self) -> nat {
        self.w0 as nat + self.w1 as nat * limb1() + self.w2 as nat * limb2() + self.w3 as nat
            * limb3()
    }
}

/// The word whose value is `n` modulo 2^256.
pub open spec fn word_of(n: nat) -> Word {
    Word {
        w0: (n % limb1()) as u64,
        w1: ((n / limb1()) % limb1()) as u64,
        w2: ((n / limb2()) % limb1()) as u64,
        w3: ((n / limb3()) % limb1()) as u64,
    }
}

/// Every word is below 2^256.
pub proof fn lemma_word_bound(w: Word)
    ensures
        w@ < modulus(),
{
}

/// A word is the word of its own value.
pub proof fn lemma_word_of_view(w: Word)
    ensures
        word_of(w@) == w,
{
    let n = w@;
    assert(n % limb1() == w.w0 as nat);
    assert((n / limb1()) % limb1() == w.w1 as nat);
    assert((n / limb2()) % limb1() == w.w2 as nat);
    assert((n / limb3()) % limb1() == w.w3 as nat);
}

/// The value of the word of `n` is `n`, for `n` below 2^256.
pub proof fn lemma_view_of_word(n: nat)
    requires
        n < modulus(),
    ensures
        word_of(n)@ == n,
{
    let q1 = n / limb1();
    let q2 = n / limb2();
    let q3 = n / limb3();
    assert(q2 == q1 / limb1());
    assert(q3 == q2 / limb1());
}

/// Two words with the same value are the same word.
pub proof fn lemma_view_injective(a: Word, b: Word)
    requires
        a@ == b@,
    ensures
        a == b,
{
    lemma_word_of_view(a);
    lemma_word_of_view(b);
}

/// The value of `bytes` read as one big-endian number.
pub open spec fn be_value(bytes: Seq<u8>) -> nat
    decreases bytes.len(),
{
    if bytes.len() == 0 {
        0
    } else {
        be_value(bytes.drop_last()) * 256 + bytes.last() as nat
    }
}

/// The byte of `w` with weight 256^`index`: index 0 is the least significant.
pub open spec fn byte_at(w: Word, index: nat) -> u8 {
    ((w@ as int / pow(256, index)) % 256) as u8
}

/// The 32 bytes of `w`, most significant first.
pub open spec fn be_bytes(w: Word) -> Seq<u8> {
    Seq::new(32, |k: int| byte_at(w, (31 - k) as nat))
}

/// Whether `a` is negative when read as a two's complement number.
pub open spec fn negative(a: Word) -> bool {
    a@ >= sign_bit()
}

/// The two's complement reading of `a`.
pub open spec fn signed(a: Word) -> int {
    if negative(a) {
        a@ - modulus()
    } else {
        a@ as int
    }
}

/// 1 for `true`, 0 for `false`.
pub open spec fn bool_word(b: bool) -> Word {
    if b {
        word_of(1)
    } else {
        word_of(0)
    }
}

/// The sum, modulo 2^256.
pub open spec fn add_words(a: Word, b: Word) -> Word {
    word_of((a@ + b@) % modulus())
}

/// The difference, modulo 2^256.
pub open spec fn sub_words(a: Word, b: Word) -> Word {
    word_of(((a@ + modulus() - b@) as nat) % modulus())
}

/// The product, modulo 2^256.
pub open spec fn mul_words(a: Word, b: Word) -> Word {
    word_of((a@ * b@) % modulus())
}

/// The quotient; zero where the divisor is zero.
pub open spec fn div_words(a: Word, b: Word) -> Word {
    if b@ == 0 {
        word_of(0)
    } else {
        word_of(a@ / b@)
    }
}

/// The remainder; zero where the divisor is zero.
pub open spec fn mod_words(a: Word, b: Word) -> Word {
    if b@ == 0 {
        word_of(0)
    } else {
        word_of(a@ % b@)
    }
}

/// `a` to the power `b`, modulo 2^256.
pub open spec fn pow_words(a: Word, b: Word) -> Word {
    word_of((pow(a@ as int, b@) % (modulus() as int)) as nat)
}

/// The two's complement negation: 2^256 - a, and zero for zero.
pub open spec fn negate(a: Word) -> Word {
    word_of(((modulus() - a@) as nat) % modulus())
}

/// The absolute value of the two's complement reading of `a`, as a word.
pub open spec fn magnitude(a: Word) -> Word {
    if negative(a) {
        negate(a)
    } else {
        a
    }
}

/// Signed division: the quotient of the magnitudes, negative when exactly
/// one operand is negative; zero where the divisor is zero.
pub open spec fn sdiv_words(a: Word, b: Word) -> Word {
    if b@ == 0 {
        word_of(0)
    } else {
        let q = div_words(magnitude(a), magnitude(b));
        if negative(a) != negative(b) {
            negate(q)
        } else {
            q
        }
    }
}

/// Signed remainder: the remainder of the magnitudes, negative when the
/// dividend is negative; zero where the divisor is zero.
pub open spec fn smod_words(a: Word, n: Word) -> Word {
    if n@ == 0 {
        word_of(0)
    } else {
        let r = mod_words(magnitude(a), magnitude(n));
        if negative(a) {
            negate(r)
        } else {
            r
        }
    }
}

/// `value` shifted left by `shift` bits; zero for a shift of 256 or more.
pub open spec fn shl_words(value: Word, shift: Word) -> Word {
    if shift@ >= 256 {
        word_of(0)
    } else {
        word_of((value@ * pow2(shift@)) % modulus())
    }
}

/// `value` shifted right by `shift` bits; zero for a shift of 256 or more.
pub open spec fn shr_words(value: Word, shift: Word) -> Word {
    if shift@ >= 256 {
        word_of(0)
    } else {
        word_of(value@ / pow2(shift@))
    }
}

/// The arithmetic right shift as this machine computes it: a negative value
/// is negated, shifted, and negated again, so the result rounds towards zero.
pub open spec fn sar_words(value: Word, shift: Word) -> Word {
    if negative(value) {
        negate(shr_words(negate(value), shift))
    } else {
        shr_words(value, shift)
    }
}

/// The byte of `value` at `offset`, counted from the most significant end;
/// zero for an offset of 32 or more.
pub open spec fn byte_of(offset: Word, value: Word) -> Word {
    if offset@ >= 32 {
        word_of(0)
    } else {
        word_of(byte_at(value, (31 - offset@) as nat) as nat)
    }
}

/// The bitwise complement.
pub open spec fn not_word(a: Word) -> Word {
    Word { w0: !a.w0, w1: !a.w1, w2: !a.w2, w3: !a.w3 }
}

/// The bitwise and.
pub open spec fn and_words(a: Word, b: Word) -> Word {
    Word { w0: a.w0 & b.w0, w1: a.w1 & b.w1, w2: a.w2 & b.w2, w3: a.w3 & b.w3 }
}

/// The bitwise or.
pub open spec fn or_words(a: Word, b: Word) -> Word {
    Word { w0: a.w0 | b.w0, w1: a.w1 | b.w1, w2: a.w2 | b.w2, w3: a.w3 | b.w3 }
}

/// The bitwise exclusive or.
pub open spec fn xor_words(a: Word, b: Word) -> Word {
    Word { w0: a.w0 ^ b.w0, w1: a.w1 ^ b.w1, w2: a.w2 ^ b.w2, w3: a.w3 ^ b.w3 }
}

/// The complement of a word is what it lacks to 2^256 - 1.
pub proof fn lemma_not_value(a: Word)
    ensures
        not_word(a)@ == modulus() - 1 - a@,
{
    let (x0, x1, x2, x3) = (a.w0, a.w1, a.w2, a.w3);
    assert(!x0 == 0xffff_ffff_ffff_ffffu64 - x0) by (bit_vector);
    assert(!x1 == 0xffff_ffff_ffff_ffffu64 - x1) by (bit_vector);
    assert(!x2 == 0xffff_ffff_ffff_ffffu64 - x2) by (bit_vector);
    assert(!x3 == 0xffff_ffff_ffff_ffffu64 - x3) by (bit_vector);
}

/// Complementing twice gives the word back.
pub proof fn lemma_not_involution(a: Word)
    ensures
        not_word(not_word(a)) == a,
{
    let (x0, x1, x2, x3) = (a.w0, a.w1, a.w2, a.w3);
    assert(!!x0 == x0) by (bit_vector);
    assert(!!x1 == x1) by (bit_vector);
    assert(!!x2 == x2) by (bit_vector);
    assert(!!x3 == x3) by (bit_vector);
}

/// The exclusive or of a word with itself is zero.
pub proof fn lemma_xor_self(a: Word)
    ensures
        xor_words(a, a) == word_of(0),
{
    let (x0, x1, x2, x3) = (a.w0, a.w1, a.w2, a.w3);
    assert(x0 ^ x0 == 0) by (bit_vector);
    assert(x1 ^ x1 == 0) by (bit_vector);
    assert(x2 ^ x2 == 0) by (bit_vector);
    assert(x3 ^ x3 == 0) by (bit_vector);
}

/// Dividing by zero, or taking a remainder by zero, gives zero.
pub proof fn lemma_zero_divisor(a: Word)
    ensures
        div_words(a, word_of(0)) == word_of(0),
        mod_words(a, word_of(0)) == word_of(0),
        sdiv_words(a, word_of(0)) == word_of(0),
        smod_words(a, word_of(0)) == word_of(0),
{
    lemma_view_of_word(0);
}

/// 256^32 is 2^256.
pub proof fn lemma_pow256_32()
    ensures
        pow(256, 32) == modulus(),
{
    reveal(pow);
    assert(pow(256, 0) == 1);
    assert(pow(256, 1) == 256);
    assert(pow(256, 2) == 0x1_0000);
    assert(pow(256, 4) == 0x1_0000_0000) by {
        assert(pow(256, 3) == 0x100_0000);
    }
    assert(pow(256, 8) == 0x1_0000_0000_0000_0000) by {
        assert(pow(256, 5) == 256 * pow(256, 4));
        assert(pow(256, 6) == 256 * pow(256, 5));
        assert(pow(256, 7) == 256 * pow(256, 6));
    }
    vstd::arithmetic::power::lemma_pow_adds(256, 8, 8);
    vstd::arithmetic::power::lemma_pow_adds(256, 16, 16);
    assert(pow(256, 16) == limb2());
    assert(pow(256, 32) == limb2() * limb2());
}

/// The first `k` of the 32 bytes of a word spell what is left of the word
/// when the other bytes are cut off.
proof fn lemma_be_prefix(w: Word, k: nat)
    requires
        k <= 32,
    ensures
        be_value(be_bytes(w).take(k as int)) == w@ as int / pow(256, (32 - k) as nat),
    decreases k,
{
    let n = w@ as int;
    if k == 0 {
        lemma_pow256_32();
        lemma_word_bound(w);
        lemma_basic_div(n, modulus() as int);
        assert(be_bytes(w).take(0).len() == 0);
    } else {
        let d = pow(256, (32 - k) as nat);
        let dd = pow(256, (32 - (k - 1)) as nat);
        lemma_pow_positive(256, (32 - k) as nat);
        lemma_be_prefix(w, (k - 1) as nat);
        let shorter = be_bytes(w).take(k - 1);
        let longer = be_bytes(w).take(k as int);
        assert(longer.drop_last() =~= shorter);
        assert(longer.last() == byte_at(w, (32 - k) as nat));
        assert(be_value(longer) == be_value(shorter) * 256 + longer.last() as nat);
        assert(dd == 256 * d) by {
            reveal(pow);
        }
        let q = n / d;
        assert(0 <= q % 256 < 256);
        assert(longer.last() as int == q % 256);
        lemma_div_denominator(n, d, 256);
        assert(d * 256 == 256 * d) by (nonlinear_arith);
        assert(n / dd == q / 256);
        lemma_fundamental_div_mod(q, 256);
        assert(q == 256 * (q / 256) + q % 256);
    }
}

/// The 32 bytes of a word spell the word.
pub proof fn lemma_be_round_trip(w: Word)
    ensures
        be_value(be_bytes(w)) == w@,
        word_of(be_value(be_bytes(w))) == w,
{
    lemma_be_prefix(w, 32);
    lemma_pow0(256);
    assert(be_bytes(w).take(32) =~= be_bytes(w));
    lemma_word_of_view(w);
}

/// The value of a negation: 2^256 less the value, and zero for zero.
pub proof fn lemma_negate_value(a: Word)
    ensures
        negate(a)@ == if a@ == 0 {
            0
        } else {
            modulus() - a@
        },
{
    if a@ == 0 {
        lemma_view_of_word(0);
    } else {
        lemma_view_of_word((modulus() - a@) as nat);
    }
}

/// The sign of a signed quotient is the exclusive or of the signs of its
/// operands.  This holds where the quotient is not zero, so where the
/// dividend is at least the divisor in magnitude, and where the quotient
/// fits: not for -2^255 divided by -1, which gives -2^255 again.
pub proof fn lemma_sdiv_sign(a: Word, b: Word)
    requires
        b@ != 0,
        magnitude(a)@ >= magnitude(b)@,
        !(a@ == sign_bit() && b@ == modulus() - 1),
    ensures
        negative(sdiv_words(a, b)) == (negative(a) != negative(b)),
{
    lemma_negate_value(a);
    lemma_negate_value(b);
    let x = magnitude(a)@;
    let y = magnitude(b)@;
    assert(1 <= y <= x <= sign_bit());
    let q = x / y;
    assert(1 <= q <= x) by (nonlinear_arith)
        requires
            1 <= y <= x,
            q == x / y,
    ;
    lemma_view_of_word(q);
    let quotient = div_words(magnitude(a), magnitude(b));
    assert(quotient@ == q);
    lemma_negate_value(quotient);
    if negative(a) == negative(b) {
        if x == sign_bit() {
            assert(y >= 2);
            assert(q < x) by (nonlinear_arith)
                requires
                    2 <= y <= x,
                    q == x / y,
            ;
        }
    }
}

/// The quotient of two integers, rounded towards zero.
pub open spec fn truncated_quotient(x: int, y: int) -> int {
    if (x >= 0) == (y >= 0) {
        (abs(x) / abs(y)) as int
    } else {
        -(abs(x) / abs(y))
    }
}

/// The remainder of a division that rounds towards zero: it has the sign of
/// the dividend.
pub open spec fn truncated_remainder(x: int, y: int) -> int {
    if x >= 0 {
        (abs(x) % abs(y)) as int
    } else {
        -(abs(x) % abs(y))
    }
}

/// The magnitude of a word is the absolute value of its signed reading.
pub proof fn lemma_magnitude_value(a: Word)
    ensures
        magnitude(a)@ == abs(signed(a)),
{
    lemma_negate_value(a);
}

/// Signed division divides the signed readings and rounds towards zero.
/// This holds where the quotient fits: not for -2^255 divided by -1.
pub proof fn lemma_sdiv_value(a: Word, b: Word)
    requires
        b@ != 0,
        !(a@ == sign_bit() && b@ == modulus() - 1),
    ensures
        signed(sdiv_words(a, b)) == truncated_quotient(signed(a), signed(b)),
{
    lemma_magnitude_value(a);
    lemma_magnitude_value(b);
    let x = magnitude(a)@;
    let y = magnitude(b)@;
    assert(1 <= y <= sign_bit() && x <= sign_bit());
    let q = x / y;
    assert(0 <= q <= x) by (nonlinear_arith)
        requires
            1 <= y,
            0 <= x,
            q == x / y,
    ;
    lemma_view_of_word(q);
    let quotient = div_words(magnitude(a), magnitude(b));
    assert(quotient@ == q);
    lemma_negate_value(quotient);
    if negative(a) == negative(b) {
        if x == sign_bit() {
            assert(y >= 2);
            assert(q < x) by (nonlinear_arith)
                requires
                    2 <= y,
                    0 < x,
                    q == x / y,
            ;
        }
    }
}

/// The signed remainder is the remainder of the signed readings, with the
/// sign of the dividend.
pub proof fn lemma_smod_value(a: Word, n: Word)
    requires
        n@ != 0,
    ensures
        signed(smod_words(a, n)) == truncated_remainder(signed(a), signed(n)),
{
    lemma_magnitude_value(a);
    lemma_magnitude_value(n);
    let x = magnitude(a)@;
    let y = magnitude(n)@;
    assert(1 <= y <= sign_bit());
    let r = x % y;
    assert(0 <= r < y) by (nonlinear_arith)
        requires
            1 <= y,
            0 <= x,
            r == x % y,
    ;
    lemma_view_of_word(r);
    let remainder = mod_words(magnitude(a), magnitude(n));
    assert(remainder@ == r);
    lemma_negate_value(remainder);
}

impl Word {
    /// The word with the value of `x`.
    pub fn from_u64(x: u64) -> (r: Word)
        ensures
            r == word_of(x as nat),
            r@ == x,
    {
        Word { w0: x, w1: 0, w2: 0, w3: 0 }
    }

    /// The word with the value of `x`.
    pub fn from_usize(x: usize) -> (r: Word)
        ensures
            r == word_of(x as nat),
            r@ == x,
    {
        Word { w0: x as u64, w1: 0, w2: 0, w3: 0 }
    }

    /// 1 for `true`, 0 for `false`.
    pub fn from_bool(b: bool) -> (r: Word)
        ensures
            r == bool_word(b),
    {
        if b {
            Word::from_u64(1)
        } else {
            Word::from_u64(0)
        }
    }

    /// The largest word, 2^256 - 1.
    pub fn max_value() -> (r: Word)
        ensures
            r == word_of((modulus() - 1) as nat),
            r@ == modulus() - 1,
    {
        let r = Word {
            w0: 0xffff_ffff_ffff_ffff,
            w1: 0xffff_ffff_ffff_ffff,
            w2: 0xffff_ffff_ffff_ffff,
            w3: 0xffff_ffff_ffff_ffff,
        };
        proof {
            lemma_word_of_view(r);
        }
        r
    }

    /// Whether the word is zero.
    pub fn is_zero(&self) -> (r: bool)
        ensures
            r == (self@ == 0),
    {
        self.w0 == 0 && self.w1 == 0 && self.w2 == 0 && self.w3 == 0
    }

    /// The value as a `usize`, where it fits.
    pub fn to_usize(&self) -> (r: Option<usize>)
        ensures
            match r {
                Some(v) => v == self@,
                None => self@ > usize::MAX,
            },
    {
        if self.w1 != 0 || self.w2 != 0 || self.w3 != 0 {
            None
        } else if self.w0 > usize::MAX as u64 {
            None
        } else {
            Some(self.w0 as usize)
        }
    }

    /// Whether `self` is below `other`.
    pub fn lt(&self, other: &Word) -> (r: bool)
        ensures
            r == (self@ < other@),
    {
        if self.w3 != other.w3 {
            self.w3 < other.w3
        } else if self.w2 != other.w2 {
            self.w2 < other.w2
        } else if self.w1 != other.w1 {
            self.w1 < other.w1
        } else {
            self.w0 < other.w0
        }
    }

    /// Whether the sign bit, the most significant one, is set.
    pub fn is_negative(&self) -> (r: bool)
        ensures
            r == negative(*self),
    {
        self.w3 >= 0x8000_0000_0000_0000
    }

    /// The bitwise complement.
    pub fn not(self) -> (r: Word)
        ensures
            r == not_word(self),
    {
        Word { w0: !self.w0, w1: !self.w1, w2: !self.w2, w3: !self.w3 }
    }

    /// The bitwise and.
    pub fn and(self, other: Word) -> (r: Word)
        ensures
            r == and_words(self, other),
    {
        Word {
            w0: self.w0 & other.w0,
            w1: self.w1 & other.w1,
            w2: self.w2 & other.w2,
            w3: self.w3 & other.w3,
        }
    }

    /// The bitwise or.
    pub fn or(self, other: Word) -> (r: Word)
        ensures
            r == or_words(self, other),
    {
        Word {
            w0: self.w0 | other.w0,
            w1: self.w1 | other.w1,
            w2: self.w2 | other.w2,
            w3: self.w3 | other.w3,
        }
    }

    /// The bitwise exclusive or.
    pub fn xor(self, other: Word) -> (r: Word)
        ensures
            r == xor_words(self, other),
    {
        Word {
            w0: self.w0 ^ other.w0,
            w1: self.w1 ^ other.w1,
            w2: self.w2 ^ other.w2,
            w3: self.w3 ^ other.w3,
        }
    }

    /// The sum, modulo 2^256.
    pub fn wrapping_add(self, other: Word) -> (r: Word)
        ensures
            r == add_words(self, other),
    {
        let r = u256::overflowing_add(self, other);
        proof {
            lemma_word_of_view(r);
        }
        r
    }

    /// The difference, modulo 2^256.
    pub fn wrapping_sub(self, other: Word) -> (r: Word)
        ensures
            r == sub_words(self, other),
    {
        let r = u256::overflowing_sub(self, other);
        proof {
            lemma_word_of_view(r);
        }
        r
    }

    /// The product, modulo 2^256.
    pub fn wrapping_mul(self, other: Word) -> (r: Word)
        ensures
            r == mul_words(self, other),
    {
        let r = u256::overflowing_mul(self, other);
        proof {
            lemma_word_of_view(r);
        }
        r
    }

    /// The quotient; zero where `other` is zero.
    pub fn div(self, other: Word) -> (r: Word)
        ensures
            r == div_words(self, other),
    {
        if other.is_zero() {
            Word::from_u64(0)
        } else {
            let r = u256::div(self, other);
            proof {
                lemma_word_of_view(r);
            }
            r
        }
    }

    /// The remainder; zero where `other` is zero.
    pub fn rem(self, other: Word) -> (r: Word)
        ensures
            r == mod_words(self, other),
    {
        if other.is_zero() {
            Word::from_u64(0)
        } else {
            let r = u256::rem(self, other);
            proof {
                lemma_word_of_view(r);
            }
            r
        }
    }

    /// `self` to the power `exponent`, modulo 2^256.
    pub fn wrapping_pow(self, exponent: Word) -> (r: Word)
        ensures
            r == pow_words(self, exponent),
    {
        let r = u256::overflowing_pow(self, exponent);
        proof {
            lemma_word_of_view(r);
        }
        r
    }

    /// The two's complement negation.
    pub fn wrapping_neg(self) -> (r: Word)
        ensures
            r == negate(self),
    {
        let r = self.not().wrapping_add(Word::from_u64(1));
        proof {
            lemma_not_value(self);
            lemma_word_bound(self);
            let n = not_word(self)@;
            assert((n + 1) % modulus() == ((modulus() - self@) as nat) % modulus());
        }
        r
    }

    /// The absolute value of the two's complement reading.
    pub fn abs(self) -> (r: Word)
        ensures
            r == magnitude(self),
    {
        if self.is_negative() {
            self.wrapping_neg()
        } else {
            self
        }
    }

    /// `self` shifted left by `shift` bits.
    pub fn shl(self, shift: Word) -> (r: Word)
        ensures
            r == shl_words(self, shift),
    {
        match shift.to_usize() {
            Some(s) => {
                if s >= 256 {
                    Word::from_u64(0)
                } else {
                    let r = u256::shl(self, s);
                    proof {
                        lemma_word_of_view(r);
                    }
                    r
                }
            },
            None => Word::from_u64(0),
        }
    }

    /// `self` shifted right by `shift` bits.
    pub fn shr(self, shift: Word) -> (r: Word)
        ensures
            r == shr_words(self, shift),
    {
        match shift.to_usize() {
            Some(s) => {
                if s >= 256 {
                    Word::from_u64(0)
                } else {
                    let r = u256::shr(self, s);
                    proof {
                        lemma_word_of_view(r);
                    }
                    r
                }
            },
            None => Word::from_u64(0),
        }
    }

    /// The byte with weight 256^`index`, for an index below 32.
    pub fn byte(&self, index: usize) -> (r: u8)
        requires
            index < 32,
        ensures
            r == byte_at(*self, index as nat),
    {
        u256::byte(*self, index)
    }

    /// The 32 bytes of the word, most significant first.
    pub fn to_be_bytes(&self) -> (r: Vec<u8>)
        ensures
            r@ == be_bytes(*self),
    {
        let mut out: Vec<u8> = Vec::new();
        let mut k: usize = 0;
        while k < 32
            invariant
                k <= 32,
                out@.len() == k,
                forall|j: int| 0 <= j < k ==> out@[j] == byte_at(*self, (31 - j) as nat),
            decreases 32 - k,
        {
            out.push(self.byte(31 - k));
            k += 1;
        }
        assert(out@ =~= be_bytes(*self));
        out
    }

    /// The word that up to 32 bytes spell, most significant first.
    pub fn from_be_bytes(bytes: &[u8]) -> (r: Word)
        requires
            bytes@.len() <= 32,
        ensures
            r == word_of(be_value(bytes@)),
            r@ == be_value(bytes@),
    {
        let r = u256::from_big_endian(bytes);
        proof {
            lemma_word_of_view(r);
        }
        r
    }

    /// The word that hexadecimal text spells: after one optional `0x`, up
    /// to 64 digits of either case.  `None` for any other text.
    pub fn from_hex(text: &str) -> (r: Option<Word>)
        ensures
            r == match hex_number(text@) {
                Some(n) => Some(word_of(n)),
                None => None,
            },
    {
        let r = u256::from_str_radix(text, 16);
        proof {
            if let Some(w) = r {
                lemma_word_of_view(w);
            }
        }
        r
    }

    /// The value in lower-case hexadecimal digits, without leading zeros.
    pub fn to_hex(&self) -> (r: String)
        ensures
            r@ == lower_hex(self@),
    {
        u256::lower_hex_text(*self)
    }
}

} // verus!
