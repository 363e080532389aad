//! Fixed-width EVM words: unsigned and signed 256-bit integers, hashes and addresses.
//!
//! Values are held as plain 64-bit limbs. Wide arithmetic is delegated to `alloy`; every result
//! is stated over the mathematical value of the word.

use vstd::arithmetic::div_mod::{lemma_div_denominator, lemma_mod_breakdown, lemma_small_mod};
use vstd::arithmetic::power::{
    lemma_pow0, lemma_pow_adds, lemma_pow_increases, lemma_pow_positive, pow,
};
use vstd::arithmetic::power2::pow2;
use vstd::prelude::*;

verus! {

/// `2^64`, the weight of one limb.
pub const LIMB: u128 = 0x1_0000_0000_0000_0000;

/// `2^256`, the number of values of a 256-bit word.
pub open spec fn word_modulus() -> nat {
    0x1_0000000000000000_0000000000000000_0000000000000000_0000000000000000nat
}

/// `2^255`, the number of non-negative values of a signed 256-bit word.
pub open spec fn signed_modulus() -> nat {
    0x8000000000000000_0000000000000000_0000000000000000_0000000000000000nat
}

/// `2^160`, the number of account addresses.
pub open spec fn address_modulus() -> nat {
    0x1_00000000_0000000000000000_0000000000000000nat
}

/// Value of four little-endian 64-bit limbs.
pub open spec fn limbs_value(l0: u64, l1: u64, l2: u64, l3: u64) -> nat {
    (l0 + l1 * 0x1_0000000000000000int + l2 * 0x1_0000000000000000_0000000000000000int
        + l3 * 0x1_0000000000000000_0000000000000000_0000000000000000int) as nat
}

/// Unsigned 256-bit integer.
#[derive(Clone, Copy, Debug, PartialEq, Eq, Structural, Hash)]
pub struct U256 {
    l0: u64,
    l1: u64,
    l2: u64,
    l3: u64,
}

impl View for U256 {
    type V = nat;

    closed spec fn view(&self) -> nat {
        limbs_value(self.l0, self.l1, self.l2, self.l3)
    }
}

/// The word whose value is `n`, for `n` below `2^256`.
pub closed spec fn u256(n: nat) -> U256 {
    U256 {
        l0: (n % 0x1_0000000000000000nat) as u64,
        l1: ((n / 0x1_0000000000000000nat) % 0x1_0000000000000000nat) as u64,
        l2: ((n / 0x1_0000000000000000_0000000000000000nat) % 0x1_0000000000000000nat) as u64,
        l3: ((n / 0x1_0000000000000000_0000000000000000_0000000000000000nat) % 0x1_0000000000000000nat) as u64,
    }
}

/// Every word has a value below `2^256`.
pub broadcast proof fn lemma_u256_range(x: U256)
    ensures
        #[trigger] x@ < word_modulus(),
{
}

/// `u256` is a right inverse of the value.
pub broadcast proof fn lemma_u256_value(n: nat)
    requires
        n < word_modulus(),
    ensures
        (#[trigger] u256(n))@ == n,
{
    let k: nat = 0x1_0000000000000000nat;
    let k2: nat = 0x1_0000000000000000_0000000000000000nat;
    let k3: nat = 0x1_0000000000000000_0000000000000000_0000000000000000nat;
    assert(n / k2 == (n / k) / k);
    assert(n / k3 == (n / k2) / k);
    assert(n / k3 < k);
}

/// A word is determined by its value.
pub proof fn lemma_u256_injective(x: U256, y: U256)
    requires
        x@ == y@,
    ensures
        x == y,
{
    if x.l3 != y.l3 {
        assert(x@ < y@ || y@ < x@);
    } else if x.l2 != y.l2 {
        assert(x@ < y@ || y@ < x@);
    } else if x.l1 != y.l1 {
        assert(x@ < y@ || y@ < x@);
    }
}

/// `u256` is a left inverse of the value.
pub broadcast proof fn lemma_u256_inverse(x: U256)
    ensures
        #[trigger] u256(x@) == x,
{
    lemma_u256_range(x);
    lemma_u256_value(x@);
    lemma_u256_injective(u256(x@), x);
}

/// Range and inverse facts of the word representation.
pub broadcast group group_u256 {
    lemma_u256_range,
    lemma_u256_value,
    lemma_u256_inverse,
}

/// Exact sum, absent when it needs more than 256 bits.
pub open spec fn sum(a: U256, b: U256) -> Option<U256> {
    if a@ + b@ < word_modulus() {
        Some(u256(a@ + b@))
    } else {
        None
    }
}

/// Exact difference, absent when it would be negative.
pub open spec fn difference(a: U256, b: U256) -> Option<U256> {
    if b@ <= a@ {
        Some(u256((a@ - b@) as nat))
    } else {
        None
    }
}

/// Exact product, absent when it needs more than 256 bits.
pub open spec fn product(a: U256, b: U256) -> Option<U256> {
    if a@ * b@ < word_modulus() {
        Some(u256(a@ * b@))
    } else {
        None
    }
}

/// Quotient rounded down, absent for a zero divisor.
pub open spec fn quotient(a: U256, b: U256) -> Option<U256> {
    if b@ != 0 {
        Some(u256(a@ / b@))
    } else {
        None
    }
}

/// Difference clamped at zero.
pub open spec fn saturating_difference(a: U256, b: U256) -> U256 {
    if b@ <= a@ {
        u256((a@ - b@) as nat)
    } else {
        u256(0)
    }
}

/// The smaller of two words.
pub open spec fn smaller(a: U256, b: U256) -> U256 {
    if b@ < a@ {
        b
    } else {
        a
    }
}

/// The larger of two words.
pub open spec fn larger(a: U256, b: U256) -> U256 {
    if a@ < b@ {
        b
    } else {
        a
    }
}

/// The base-256 digit of `n` with weight `256^place`.
pub open spec fn base256_digit(n: nat, place: nat) -> u8 {
    ((n / (pow(256, place) as nat)) % 256) as u8
}

/// The `length` low base-256 digits of `n`, most significant first.
pub open spec fn big_endian(n: nat, length: nat) -> Seq<u8> {
    Seq::new(length, |i: int| base256_digit(n, (length - 1 - i) as nat))
}

impl U256 {
    /// Builds a word from its little-endian limbs.
    pub fn from_limbs(limbs: [u64; 4]) -> (r: U256)
        ensures
            r@ == limbs_value(limbs@[0], limbs@[1], limbs@[2], limbs@[3]),
    {
        U256 { l0: limbs[0], l1: limbs[1], l2: limbs[2], l3: limbs[3] }
    }

    /// Returns the little-endian limbs.
    pub fn into_limbs(self) -> (limbs: [u64; 4])
        ensures
            self@ == limbs_value(limbs@[0], limbs@[1], limbs@[2], limbs@[3]),
    {
        [self.l0, self.l1, self.l2, self.l3]
    }

    /// Zero.
    pub fn zero() -> (r: U256)
        ensures
            r == u256(0),
    {
        let word = U256 { l0: 0, l1: 0, l2: 0, l3: 0 };
        proof {
            lemma_u256_inverse(word);
        }
        word
    }

    /// One.
    pub fn one() -> (r: U256)
        ensures
            r == u256(1),
    {
        let word = U256 { l0: 1, l1: 0, l2: 0, l3: 0 };
        proof {
            lemma_u256_inverse(word);
        }
        word
    }

    /// The largest word, `2^256 - 1`.
    pub fn max_value() -> (r: U256)
        ensures
            r == u256((word_modulus() - 1) as nat),
    {
        let word = U256 { l0: u64::MAX, l1: u64::MAX, l2: u64::MAX, l3: u64::MAX };
        proof {
            lemma_u256_inverse(word);
        }
        word
    }

    /// Widens a 64-bit integer.
    pub fn from_u64(value: u64) -> (r: U256)
        ensures
            r == u256(value as nat),
    {
        let word = U256 { l0: value, l1: 0, l2: 0, l3: 0 };
        proof {
            lemma_u256_inverse(word);
        }
        word
    }

    /// Widens a 128-bit integer.
    pub fn from_u128(value: u128) -> (r: U256)
        ensures
            r == u256(value as nat),
    {
        let word = U256 { l0: (value % LIMB) as u64, l1: (value / LIMB) as u64, l2: 0, l3: 0 };
        proof {
            lemma_u256_inverse(word);
        }
        word
    }

    /// Narrows to a machine index, absent when the value does not fit.
    pub fn to_usize(self) -> (r: Option<usize>)
        ensures
            r == (if self@ <= usize::MAX { Some(self@ as usize) } else { None::<usize> }),
    {
        if self.l1 == 0 && self.l2 == 0 && self.l3 == 0 && self.l0 <= usize::MAX as u64 {
            Some(self.l0 as usize)
        } else {
            None
        }
    }

    /// Narrows to 64 bits, absent when the value does not fit.
    pub fn to_u64(self) -> (r: Option<u64>)
        ensures
            r == (if self@ <= u64::MAX { Some(self@ as u64) } else { None::<u64> }),
    {
        if self.l1 == 0 && self.l2 == 0 && self.l3 == 0 {
            Some(self.l0)
        } else {
            None
        }
    }

    /// Narrows to 128 bits, absent when the value does not fit.
    pub fn to_u128(self) -> (r: Option<u128>)
        ensures
            r == (if self@ <= u128::MAX { Some(self@ as u128) } else { None::<u128> }),
    {
        if self.l2 == 0 && self.l3 == 0 {
            Some(self.l1 as u128 * LIMB + self.l0 as u128)
        } else {
            None
        }
    }

    /// Whether the value is zero.
    pub fn is_zero(self) -> (r: bool)
        ensures
            r == (self@ == 0),
    {
        self.l0 == 0 && self.l1 == 0 && self.l2 == 0 && self.l3 == 0
    }

    /// Whether `self` is strictly below `rhs`.
    pub fn lt(self, rhs: U256) -> (r: bool)
        ensures
            r == (self@ < rhs@),
    {
        if self.l3 != rhs.l3 {
            self.l3 < rhs.l3
        } else if self.l2 != rhs.l2 {
            self.l2 < rhs.l2
        } else if self.l1 != rhs.l1 {
            self.l1 < rhs.l1
        } else {
            self.l0 < rhs.l0
        }
    }

    /// Whether `self` is at most `rhs`.
    pub fn le(self, rhs: U256) -> (r: bool)
        ensures
            r == (self@ <= rhs@),
    {
        !rhs.lt(self)
    }

    /// The smaller of the two values.
    pub fn min(self, rhs: U256) -> (r: U256)
        ensures
            r == smaller(self, rhs),
    {
        if rhs.lt(self) {
            rhs
        } else {
            self
        }
    }

    /// The larger of the two values.
    pub fn max(self, rhs: U256) -> (r: U256)
        ensures
            r == larger(self, rhs),
    {
        if self.lt(rhs) {
            rhs
        } else {
            self
        }
    }

    /// Difference clamped at zero.
    pub fn saturating_sub(self, rhs: U256) -> (r: U256)
        ensures
            r == saturating_difference(self, rhs),
    {
        match self.checked_sub(rhs) {
            Some(value) => value,
            None => U256::zero(),
        }
    }

    /// `alloy::primitives::U256::checked_add`: the exact sum, or `None` when it overflows
    /// 256 bits.
    #[verifier::external_body]
    pub(crate) fn checked_add(self, rhs: U256) -> (r: Option<U256>)
        ensures
            r == sum(self, rhs),
    {
        alloy::primitives::U256::from_limbs([self.l0, self.l1, self.l2, self.l3])
            .checked_add(alloy::primitives::U256::from_limbs([rhs.l0, rhs.l1, rhs.l2, rhs.l3]))
            .map(|value| U256::from_limbs(value.into_limbs()))
    }

    /// `alloy::primitives::U256::checked_sub`: the exact difference, or `None` when it would be
    /// negative.
    #[verifier::external_body]
    pub(crate) fn checked_sub(self, rhs: U256) -> (r: Option<U256>)
        ensures
            r == difference(self, rhs),
    {
        alloy::primitives::U256::from_limbs([self.l0, self.l1, self.l2, self.l3])
            .checked_sub(alloy::primitives::U256::from_limbs([rhs.l0, rhs.l1, rhs.l2, rhs.l3]))
            .map(|value| U256::from_limbs(value.into_limbs()))
    }

    /// `alloy::primitives::U256::checked_mul`: the exact product, or `None` when it overflows
    /// 256 bits.
    #[verifier::external_body]
    pub(crate) fn checked_mul(self, rhs: U256) -> (r: Option<U256>)
        ensures
            r == product(self, rhs),
    {
        alloy::primitives::U256::from_limbs([self.l0, self.l1, self.l2, self.l3])
            .checked_mul(alloy::primitives::U256::from_limbs([rhs.l0, rhs.l1, rhs.l2, rhs.l3]))
            .map(|value| U256::from_limbs(value.into_limbs()))
    }

    /// `alloy::primitives::U256::checked_div`: the quotient rounded down, or `None` for a zero
    /// divisor.
    #[verifier::external_body]
    pub(crate) fn checked_div(self, rhs: U256) -> (r: Option<U256>)
        ensures
            r == quotient(self, rhs),
    {
        alloy::primitives::U256::from_limbs([self.l0, self.l1, self.l2, self.l3])
            .checked_div(alloy::primitives::U256::from_limbs([rhs.l0, rhs.l1, rhs.l2, rhs.l3]))
            .map(|value| U256::from_limbs(value.into_limbs()))
    }

    /// `alloy::primitives::U256::to_be_bytes`: the 32 big-endian bytes of the word.
    #[verifier::external_body]
    pub(crate) fn to_be_bytes(self) -> (r: Vec<u8>)
        ensures
            r@ == big_endian(self@, 32),
    {
        alloy::primitives::U256::from_limbs([self.l0, self.l1, self.l2, self.l3])
            .to_be_bytes::<32>()
            .to_vec()
    }

    /// The `length` low bytes of the word, most significant first.
    pub fn low_bytes(self, length: usize) -> (r: Vec<u8>)
        requires
            length <= 32,
        ensures
            r@ == big_endian(self@, length as nat),
    {
        let padded: Vec<u8> = self.to_be_bytes();
        let mut bytes: Vec<u8> = Vec::new();
        let first: usize = 32 - length;
        let mut i: usize = first;
        while i < 32
            invariant
                first <= i <= 32,
                padded@ == big_endian(self@, 32),
                bytes@ == padded@.subrange(first as int, i as int),
            decreases 32 - i,
        {
            bytes.push(padded[i]);
            i = i + 1;
        }
        assert(bytes@ =~= big_endian(self@, length as nat));
        bytes
    }
}

/// Signed 256-bit integer in two's complement.
#[derive(Clone, Copy, Debug, PartialEq, Eq, Structural, Hash)]
pub struct I256 {
    bits: U256,
}

impl View for I256 {
    type V = int;

    closed spec fn view(&self) -> int {
        if self.bits@ < signed_modulus() {
            self.bits@ as int
        } else {
            self.bits@ - word_modulus()
        }
    }
}

/// The signed word whose two's-complement bits have the value `bits`.
pub closed spec fn i256_from_bits(bits: nat) -> I256 {
    I256 { bits: u256(bits) }
}

/// The signed word whose value is `n`, for `n` in `-2^255 .. 2^255`.
pub open spec fn i256(n: int) -> I256 {
    i256_from_bits(
        if n >= 0 {
            n as nat
        } else {
            (n + word_modulus()) as nat
        },
    )
}

/// Every signed word has a value in `-2^255 .. 2^255`.
pub broadcast proof fn lemma_i256_range(x: I256)
    ensures
        -signed_modulus() <= #[trigger] x@ < signed_modulus(),
{
    broadcast use group_u256;

}

/// `i256` is a right inverse of the value.
pub broadcast proof fn lemma_i256_value(n: int)
    requires
        -signed_modulus() <= n < signed_modulus(),
    ensures
        (#[trigger] i256(n))@ == n,
{
    broadcast use group_u256;

}

/// `i256` is a left inverse of the value.
pub broadcast proof fn lemma_i256_inverse(x: I256)
    ensures
        #[trigger] i256(x@) == x,
{
    broadcast use group_u256;

}

/// The bits of a non-negative signed word are its value.
pub proof fn lemma_i256_bits(x: I256)
    ensures
        x.bits_value() < word_modulus(),
        x@ >= 0 ==> x.bits_value() == x@,
{
    broadcast use group_u256;

}

/// Range and inverse facts of the signed word representation.
pub broadcast group group_i256 {
    lemma_i256_range,
    lemma_i256_value,
    lemma_i256_inverse,
}

/// `n` as a signed word, absent when it does not fit.
pub open spec fn fit_signed(n: int) -> Option<I256> {
    if -signed_modulus() <= n < signed_modulus() {
        Some(i256(n))
    } else {
        None
    }
}

/// Exact signed sum.
pub open spec fn signed_sum(a: I256, b: I256) -> Option<I256> {
    fit_signed(a@ + b@)
}

/// Exact signed difference.
pub open spec fn signed_difference(a: I256, b: I256) -> Option<I256> {
    fit_signed(a@ - b@)
}

/// Exact signed product.
pub open spec fn signed_product(a: I256, b: I256) -> Option<I256> {
    fit_signed(a@ * b@)
}

/// Absolute value.
pub open spec fn magnitude(n: int) -> nat {
    if n < 0 {
        (-n) as nat
    } else {
        n as nat
    }
}

/// Quotient of two integers rounded toward zero.
pub open spec fn toward_zero(a: int, b: int) -> int {
    if (a < 0) == (b < 0) {
        (magnitude(a) / magnitude(b)) as int
    } else {
        -((magnitude(a) / magnitude(b)) as int)
    }
}

/// Signed quotient rounded toward zero, absent for a zero divisor and on overflow.
pub open spec fn signed_quotient(a: I256, b: I256) -> Option<I256> {
    if b@ == 0 {
        None
    } else {
        fit_signed(toward_zero(a@, b@))
    }
}

/// Exact negation, absent for the least value.
pub open spec fn negation(a: I256) -> Option<I256> {
    fit_signed(-a@)
}

/// The non-negative signed word equal to an unsigned one.
pub open spec fn signed_of(a: U256) -> Option<I256> {
    fit_signed(a@ as int)
}

/// The unsigned word equal to a non-negative signed one.
pub open spec fn unsigned_of(a: I256) -> Option<U256> {
    if a@ >= 0 {
        Some(u256(a@ as nat))
    } else {
        None
    }
}

/// Two's-complement bits shifted left and truncated, absent for shifts of the full width.
pub open spec fn shifted_left(a: I256, shift: nat) -> Option<I256> {
    if shift < 256 {
        Some(i256_from_bits((a.bits_value() * pow2(shift)) % word_modulus()))
    } else {
        None
    }
}

/// Two's-complement bits shifted right, absent for shifts of the full width.
pub open spec fn shifted_right(a: I256, shift: nat) -> Option<I256> {
    if shift < 256 {
        Some(i256_from_bits(a.bits_value() / pow2(shift)))
    } else {
        None
    }
}

impl I256 {
    /// Value of the two's-complement bits.
    pub closed spec fn bits_value(self) -> nat {
        self.bits@
    }

    /// Zero.
    pub fn zero() -> (r: I256)
        ensures
            r == i256(0),
    {
        I256 { bits: U256::zero() }
    }

    /// Widens a non-negative 64-bit integer.
    pub fn from_u64(value: u64) -> (r: I256)
        ensures
            r == i256(value as int),
    {
        I256 { bits: U256::from_u64(value) }
    }

    /// Reads an unsigned word as a signed one, absent from `2^255` up.
    pub fn try_from_unsigned(value: U256) -> (r: Option<I256>)
        ensures
            r == signed_of(value),
    {
        broadcast use group_u256;

        if value.l3 < 0x8000_0000_0000_0000 {
            Some(I256 { bits: value })
        } else {
            None
        }
    }

    /// Reads a signed word as an unsigned one, absent for negative values.
    pub fn to_unsigned(self) -> (r: Option<U256>)
        ensures
            r == unsigned_of(self),
    {
        broadcast use group_u256;

        if self.is_negative() {
            None
        } else {
            Some(self.bits)
        }
    }

    /// The two's-complement bits.
    pub fn to_bits(self) -> (r: U256)
        ensures
            r@ == self.bits_value(),
    {
        self.bits
    }

    /// Whether the value is negative.
    pub fn is_negative(self) -> (r: bool)
        ensures
            r == (self@ < 0),
    {
        broadcast use group_u256;

        self.bits.l3 >= 0x8000_0000_0000_0000
    }

    /// Whether the value is zero.
    pub fn is_zero(self) -> (r: bool)
        ensures
            r == (self@ == 0),
    {
        broadcast use group_u256;

        self.bits.is_zero()
    }

    /// Whether `self` is strictly below `rhs`.
    pub fn lt(self, rhs: I256) -> (r: bool)
        ensures
            r == (self@ < rhs@),
    {
        broadcast use group_u256;

        if self.is_negative() != rhs.is_negative() {
            self.is_negative()
        } else {
            self.bits.lt(rhs.bits)
        }
    }

    /// The value clamped into `low ..= high`.
    pub fn clamp(self, low: I256, high: I256) -> (r: I256)
        requires
            low@ <= high@,
        ensures
            r == (if self@ < low@ {
                low
            } else if high@ < self@ {
                high
            } else {
                self
            }),
    {
        if self.lt(low) {
            low
        } else if high.lt(self) {
            high
        } else {
            self
        }
    }

    /// `alloy::primitives::I256::checked_add`: the exact sum, or `None` on overflow.
    #[verifier::external_body]
    pub(crate) fn checked_add(self, rhs: I256) -> (r: Option<I256>)
        ensures
            r == signed_sum(self, rhs),
    {
        alloy::primitives::I256::from_raw(alloy::primitives::U256::from_limbs(self.bits.into_limbs()))
            .checked_add(alloy::primitives::I256::from_raw(alloy::primitives::U256::from_limbs(rhs.bits.into_limbs())))
            .map(|value| I256 { bits: U256::from_limbs(value.into_raw().into_limbs()) })
    }

    /// `alloy::primitives::I256::checked_sub`: the exact difference, or `None` on overflow.
    #[verifier::external_body]
    pub(crate) fn checked_sub(self, rhs: I256) -> (r: Option<I256>)
        ensures
            r == signed_difference(self, rhs),
    {
        alloy::primitives::I256::from_raw(alloy::primitives::U256::from_limbs(self.bits.into_limbs()))
            .checked_sub(alloy::primitives::I256::from_raw(alloy::primitives::U256::from_limbs(rhs.bits.into_limbs())))
            .map(|value| I256 { bits: U256::from_limbs(value.into_raw().into_limbs()) })
    }

    /// `alloy::primitives::I256::checked_mul`: the exact product, or `None` on overflow.
    #[verifier::external_body]
    pub(crate) fn checked_mul(self, rhs: I256) -> (r: Option<I256>)
        ensures
            r == signed_product(self, rhs),
    {
        alloy::primitives::I256::from_raw(alloy::primitives::U256::from_limbs(self.bits.into_limbs()))
            .checked_mul(alloy::primitives::I256::from_raw(alloy::primitives::U256::from_limbs(rhs.bits.into_limbs())))
            .map(|value| I256 { bits: U256::from_limbs(value.into_raw().into_limbs()) })
    }

    /// `alloy::primitives::I256::checked_div`: the quotient rounded toward zero, or `None` for a
    /// zero divisor and for the one quotient that does not fit, the least value by minus one.
    #[verifier::external_body]
    pub(crate) fn checked_div(self, rhs: I256) -> (r: Option<I256>)
        ensures
            r == signed_quotient(self, rhs),
    {
        alloy::primitives::I256::from_raw(alloy::primitives::U256::from_limbs(self.bits.into_limbs()))
            .checked_div(alloy::primitives::I256::from_raw(alloy::primitives::U256::from_limbs(rhs.bits.into_limbs())))
            .map(|value| I256 { bits: U256::from_limbs(value.into_raw().into_limbs()) })
    }

    /// `alloy::primitives::I256::checked_neg`: the exact negation, or `None` for the least value.
    #[verifier::external_body]
    pub(crate) fn checked_neg(self) -> (r: Option<I256>)
        ensures
            r == negation(self),
    {
        alloy::primitives::I256::from_raw(alloy::primitives::U256::from_limbs(self.bits.into_limbs()))
            .checked_neg()
            .map(|value| I256 { bits: U256::from_limbs(value.into_raw().into_limbs()) })
    }

    /// `alloy::primitives::I256::unsigned_abs`: the absolute value, which always fits unsigned.
    #[verifier::external_body]
    pub(crate) fn unsigned_abs(self) -> (r: U256)
        ensures
            r == u256(magnitude(self@)),
    {
        let value = alloy::primitives::I256::from_raw(alloy::primitives::U256::from_limbs(self.bits.into_limbs()));
        U256::from_limbs(value.unsigned_abs().into_limbs())
    }

    /// `alloy::primitives::I256::checked_shl`: the two's-complement bits shifted left and
    /// truncated to 256 bits, or `None` for a shift of 256 or more.
    #[verifier::external_body]
    pub(crate) fn checked_shl(self, shift: usize) -> (r: Option<I256>)
        ensures
            r == shifted_left(self, shift as nat),
    {
        alloy::primitives::I256::from_raw(alloy::primitives::U256::from_limbs(self.bits.into_limbs()))
            .checked_shl(shift)
            .map(|value| I256 { bits: U256::from_limbs(value.into_raw().into_limbs()) })
    }

    /// `alloy::primitives::I256::checked_shr`: the two's-complement bits shifted right with zero
    /// fill, or `None` for a shift of 256 or more.
    #[verifier::external_body]
    pub(crate) fn checked_shr(self, shift: usize) -> (r: Option<I256>)
        ensures
            r == shifted_right(self, shift as nat),
    {
        alloy::primitives::I256::from_raw(alloy::primitives::U256::from_limbs(self.bits.into_limbs()))
            .checked_shr(shift)
            .map(|value| I256 { bits: U256::from_limbs(value.into_raw().into_limbs()) })
    }
}

/// A 32-byte hash, held as the integer of its big-endian bytes.
#[derive(Clone, Copy, Debug, PartialEq, Eq, Structural, Hash)]
pub struct B256 {
    word: U256,
}

impl View for B256 {
    type V = nat;

    closed spec fn view(&self) -> nat {
        self.word@
    }
}

/// The hash whose big-endian integer is `n`, for `n` below `2^256`.
pub closed spec fn b256(n: nat) -> B256 {
    B256 { word: u256(n) }
}

/// Every hash has a value below `2^256`.
pub broadcast proof fn lemma_b256_range(x: B256)
    ensures
        #[trigger] x@ < word_modulus(),
{
    broadcast use group_u256;

}

/// `b256` is a right inverse of the value.
pub broadcast proof fn lemma_b256_value(n: nat)
    requires
        n < word_modulus(),
    ensures
        (#[trigger] b256(n))@ == n,
{
    broadcast use group_u256;

}

/// `b256` is a left inverse of the value.
pub broadcast proof fn lemma_b256_inverse(x: B256)
    ensures
        #[trigger] b256(x@) == x,
{
    broadcast use group_u256;

}

/// Range and inverse facts of the hash representation.
pub broadcast group group_b256 {
    lemma_b256_range,
    lemma_b256_value,
    lemma_b256_inverse,
}

impl B256 {
    /// The all-zero hash.
    pub fn zero() -> (r: B256)
        ensures
            r == b256(0),
    {
        B256 { word: U256::zero() }
    }

    /// The hash whose big-endian integer is `word`.
    pub fn from_word(word: U256) -> (r: B256)
        ensures
            r@ == word@,
            r == b256(word@),
    {
        broadcast use group_u256;

        B256 { word }
    }

    /// The big-endian integer of the hash.
    pub fn word(self) -> (r: U256)
        ensures
            r@ == self@,
            r == u256(self@),
    {
        broadcast use group_u256;

        self.word
    }

    /// The hash that is zero but for its last byte.
    pub fn with_last_byte(byte: u8) -> (r: B256)
        ensures
            r == b256(byte as nat),
    {
        B256 { word: U256::from_u64(byte as u64) }
    }

    /// Whether every byte is zero.
    pub fn is_zero(self) -> (r: bool)
        ensures
            r == (self@ == 0),
            r == (self == b256(0)),
    {
        broadcast use group_u256;

        self.word.is_zero()
    }

    /// The 32 bytes of the hash.
    pub fn to_bytes(self) -> (r: Vec<u8>)
        ensures
            r@ == big_endian(self@, 32),
    {
        self.word.to_be_bytes()
    }
}

/// A 20-byte account address, held as the integer of its big-endian bytes.
#[derive(Clone, Copy, Debug, PartialEq, Eq, Structural, Hash)]
pub struct Address {
    a0: u64,
    a1: u64,
    a2: u32,
}

impl View for Address {
    type V = nat;

    closed spec fn view(&self) -> nat {
        limbs_value(self.a0, self.a1, self.a2 as u64, 0)
    }
}

/// The address whose big-endian integer is `n`, for `n` below `2^160`.
pub closed spec fn address(n: nat) -> Address {
    Address {
        a0: (n % 0x1_0000000000000000nat) as u64,
        a1: ((n / 0x1_0000000000000000nat) % 0x1_0000000000000000nat) as u64,
        a2: ((n / 0x1_0000000000000000_0000000000000000nat) % 0x1_00000000nat) as u32,
    }
}

/// Every address has a value below `2^160`.
pub broadcast proof fn lemma_address_range(x: Address)
    ensures
        #[trigger] x@ < address_modulus(),
{
}

/// An address is determined by its value.
pub proof fn lemma_address_injective(x: Address, y: Address)
    requires
        x@ == y@,
    ensures
        x == y,
{
    if x.a2 != y.a2 {
        assert(x@ < y@ || y@ < x@);
    } else if x.a1 != y.a1 {
        assert(x@ < y@ || y@ < x@);
    }
}

/// `address` is a right inverse of the value.
pub broadcast proof fn lemma_address_value(n: nat)
    requires
        n < address_modulus(),
    ensures
        (#[trigger] address(n))@ == n,
{
    let k: nat = 0x1_0000000000000000nat;
    let k2: nat = 0x1_0000000000000000_0000000000000000nat;
    assert(n / k2 == (n / k) / k);
    assert(n / k2 < 0x1_00000000nat);
}

/// `address` is a left inverse of the value.
pub broadcast proof fn lemma_address_inverse(x: Address)
    ensures
        #[trigger] address(x@) == x,
{
    lemma_address_range(x);
    lemma_address_value(x@);
    lemma_address_injective(address(x@), x);
}

/// Range and inverse facts of the address representation.
pub broadcast group group_address {
    lemma_address_range,
    lemma_address_value,
    lemma_address_inverse,
}

impl Address {
    /// The zero address.
    pub fn zero() -> (r: Address)
        ensures
            r == address(0),
    {
        let value = Address { a0: 0, a1: 0, a2: 0 };
        proof {
            lemma_address_inverse(value);
        }
        value
    }

    /// The address that is zero but for its last byte.
    pub fn with_last_byte(byte: u8) -> (r: Address)
        ensures
            r == address(byte as nat),
    {
        let value = Address { a0: byte as u64, a1: 0, a2: 0 };
        proof {
            lemma_address_inverse(value);
        }
        value
    }

    /// The address with the given integer value, absent from `2^160` up.
    pub fn from_word(word: U256) -> (r: Option<Address>)
        ensures
            r == (if word@ < address_modulus() {
                Some(address(word@))
            } else {
                None::<Address>
            }),
    {
        if word.l3 == 0 && word.l2 < 0x1_0000_0000 {
            let result = Address { a0: word.l0, a1: word.l1, a2: word.l2 as u32 };
            proof {
                lemma_address_inverse(result);
            }
            Some(result)
        } else {
            None
        }
    }

    /// Whether this is the zero address.
    pub fn is_zero(self) -> (r: bool)
        ensures
            r == (self@ == 0),
            r == (self == address(0)),
    {
        self.a0 == 0 && self.a1 == 0 && self.a2 == 0
    }

    /// Whether `self` orders strictly before `rhs`.
    pub fn lt(self, rhs: Address) -> (r: bool)
        ensures
            r == (self@ < rhs@),
    {
        if self.a2 != rhs.a2 {
            self.a2 < rhs.a2
        } else if self.a1 != rhs.a1 {
            self.a1 < rhs.a1
        } else {
            self.a0 < rhs.a0
        }
    }

    /// The address as a left-padded 32-byte word.
    pub fn to_word(self) -> (r: U256)
        ensures
            r@ == self@,
            r == u256(self@),
    {
        broadcast use group_u256;

        U256 { l0: self.a0, l1: self.a1, l2: self.a2 as u64, l3: 0 }
    }

    /// The 20 bytes of the address.
    pub fn to_bytes(self) -> (r: Vec<u8>)
        ensures
            r@ == big_endian(self@, 20),
    {
        self.to_word().low_bytes(20)
    }
}

/// Keccak-256 of a byte string, as the big-endian integer of the digest.
pub uninterp spec fn keccak256_digest(data: Seq<u8>) -> nat;

/// `alloy::primitives::keccak256`: the digest is a function of the bytes alone.
#[verifier::external_body]
pub(crate) fn keccak256(data: &[u8]) -> (r: B256)
    ensures
        r@ == keccak256_digest(data@),
{
    let digest = alloy::primitives::keccak256(data);
    B256 { word: U256::from_limbs(alloy::primitives::U256::from_be_bytes(digest.0).into_limbs()) }
}

/// Value of a hexadecimal digit, either case.
pub open spec fn digit_value(c: char) -> Option<nat> {
    if '0' <= c <= '9' {
        Some((c as u32 - '0' as u32) as nat)
    } else if 'a' <= c <= 'f' {
        Some((c as u32 - 'a' as u32 + 10) as nat)
    } else if 'A' <= c <= 'F' {
        Some((c as u32 - 'A' as u32 + 10) as nat)
    } else {
        None
    }
}

/// Value of the `count` characters from `start` on as a hexadecimal numeral, absent where one is no
/// digit.
pub open spec fn hex_prefix(text: Seq<char>, start: int, count: int) -> Option<nat>
    decreases count,
{
    if count <= 0 {
        Some(0)
    } else {
        match (hex_prefix(text, start, count - 1), digit_value(text[start + count - 1])) {
            (Some(high), Some(low)) => Some(high * 16 + low),
            _ => None,
        }
    }
}

/// Value of exactly `count` hexadecimal digits, with or without `0x` or `0X` before them.
pub open spec fn hex_literal(text: Seq<char>, count: int) -> Option<nat> {
    let start: int = if text.len() >= 2 && text[0] == '0' && (text[1] == 'x' || text[1] == 'X') {
        2
    } else {
        0
    };
    if text.len() - start == count {
        hex_prefix(text, start, count)
    } else {
        None
    }
}

/// Integer of the address that a text denotes, absent for text that denotes none.
pub open spec fn address_literal(text: Seq<char>) -> Option<nat> {
    hex_literal(text, 40)
}

/// `alloy::primitives::Address::from_str`: a text is an address where it holds exactly forty
/// hexadecimal digits of either case, with or without a prefix; the checksum of mixed case is not
/// looked at.
#[verifier::external_body]
pub(crate) fn address_from_text(text: &str) -> (r: Option<Address>)
    ensures
        (match r {
            Some(value) => Some(value@),
            None => None::<nat>,
        }) == address_literal(text@),
{
    let parsed: alloy::primitives::Address = text.parse().ok()?;
    let limbs = alloy::primitives::U256::from_be_slice(parsed.as_slice()).into_limbs();
    Some(Address { a0: limbs[0], a1: limbs[1], a2: limbs[2] as u32 })
}

/// Big-endian integer of the 32-byte hash that a text denotes, absent for text that denotes none.
pub open spec fn b256_literal(text: Seq<char>) -> Option<nat> {
    hex_literal(text, 64)
}

/// `alloy::primitives::B256::from_str`: a text is a hash where it holds exactly sixty-four
/// hexadecimal digits of either case, with or without a prefix.
#[verifier::external_body]
pub(crate) fn b256_from_text(text: &str) -> (r: Option<B256>)
    ensures
        (match r {
            Some(value) => Some(value@),
            None => None::<nat>,
        }) == b256_literal(text@),
{
    let parsed: alloy::primitives::B256 = text.parse().ok()?;
    Some(B256 { word: U256::from_limbs(alloy::primitives::U256::from_be_bytes(parsed.0).into_limbs()) })
}

/// Radix that the first two characters of an integer text announce: ten without a prefix.
pub open spec fn announced_radix(text: Seq<char>) -> nat {
    if text.len() < 2 || text[0] != '0' {
        10
    } else if text[1] == 'x' || text[1] == 'X' {
        16
    } else if text[1] == 'o' || text[1] == 'O' {
        8
    } else if text[1] == 'b' || text[1] == 'B' {
        2
    } else {
        10
    }
}

/// Value of the `count` characters from `start` on as a numeral with ignored underscores, absent
/// where one is no digit of the radix.
pub open spec fn radix_prefix(text: Seq<char>, radix: nat, start: int, count: int) -> Option<nat>
    decreases count,
{
    if count <= 0 {
        Some(0)
    } else {
        let c = text[start + count - 1];
        match (radix_prefix(text, radix, start, count - 1), digit_value(c)) {
            (Some(high), Some(low)) => if low < radix {
                Some(high * radix + low)
            } else {
                None
            },
            (Some(high), None) => if c == '_' {
                Some(high)
            } else {
                None
            },
            _ => None,
        }
    }
}

/// Value of the unsigned integer that a text denotes, absent for text that denotes none: a numeral
/// below `2^256`, decimal or behind `0x`, `0o` or `0b`. A text without digits denotes zero.
pub open spec fn u256_literal(text: Seq<char>) -> Option<nat> {
    let radix = announced_radix(text);
    let start: int = if radix == 10 {
        0
    } else {
        2
    };
    match radix_prefix(text, radix, start, text.len() - start) {
        Some(value) => if value < word_modulus() {
            Some(value)
        } else {
            None
        },
        None => None,
    }
}

/// `alloy::primitives::U256::from_str`: a text is an unsigned integer where it holds digits of its
/// radix and underscores alone and their numeral fits 256 bits. Digits have either case, and
/// underscores count for nothing.
#[verifier::external_body]
pub(crate) fn u256_from_text(text: &str) -> (r: Option<U256>)
    ensures
        (match r {
            Some(value) => Some(value@),
            None => None::<nat>,
        }) == u256_literal(text@),
{
    let parsed: alloy::primitives::U256 = text.parse().ok()?;
    Some(U256::from_limbs(parsed.into_limbs()))
}

/// Value of bytes as a base-256 numeral, most significant first.
pub open spec fn numeral(bytes: Seq<u8>) -> nat
    decreases bytes.len(),
{
    if bytes.len() == 0 {
        0
    } else {
        numeral(bytes.drop_last()) * 256 + bytes.last() as nat
    }
}

proof fn lemma_pow_unfold(base: int, exponent: nat)
    requires
        exponent > 0,
    ensures
        pow(base, exponent) == base * pow(base, (exponent - 1) as nat),
{
    reveal(pow);
}

proof fn lemma_numeral_append(left: Seq<u8>, right: Seq<u8>)
    ensures
        numeral(left + right) == numeral(left) * pow(256, right.len()) + numeral(right),
        pow(256, right.len()) > 0,
    decreases right.len(),
{
    lemma_pow_positive(256, right.len());
    if right.len() == 0 {
        assert(left + right =~= left);
        lemma_pow0(256);
    } else {
        assert((left + right).drop_last() =~= left + right.drop_last());
        lemma_numeral_append(left, right.drop_last());
        lemma_pow_unfold(256, right.len());
        let high = numeral(left) as int;
        let weight = pow(256, (right.len() - 1) as nat);
        let low = numeral(right.drop_last()) as int;
        let last = right.last() as int;
        assert((high * weight + low) * 256 + last == high * (256 * weight) + (low * 256 + last))
            by (nonlinear_arith);
    }
}

proof fn lemma_numeral_bound(bytes: Seq<u8>)
    ensures
        numeral(bytes) < pow(256, bytes.len()),
    decreases bytes.len(),
{
    if bytes.len() == 0 {
        lemma_pow0(256);
    } else {
        lemma_numeral_bound(bytes.drop_last());
        lemma_pow_unfold(256, bytes.len());
        let weight = pow(256, (bytes.len() - 1) as nat);
        let high = numeral(bytes.drop_last()) as int;
        let last = bytes.last() as int;
        assert(high * 256 + last < 256 * weight) by (nonlinear_arith)
            requires
                high < weight,
                0 <= last < 256,
        ;
    }
}

proof fn lemma_pow_256_8()
    ensures
        pow(256, 8) == 0x1_0000000000000000,
{
    reveal_with_fuel(pow, 9);
}

/// The word of exactly 32 bytes, most significant first.
pub open spec fn word_in(data: Seq<u8>) -> Option<U256> {
    if data.len() == 32 {
        Some(u256(numeral(data)))
    } else {
        None
    }
}

fn read_limb(data: &Vec<u8>, start: usize) -> (r: u64)
    requires
        start + 8 <= data.len(),
    ensures
        r == numeral(data@.subrange(start as int, start + 8)),
{
    let mut value: u64 = 0;
    let mut i: usize = 0;
    while i < 8
        invariant
            i <= 8,
            start + 8 <= data.len(),
            value == numeral(data@.subrange(start as int, start + i)),
        decreases 8 - i,
    {
        let ghost next = data@.subrange(start as int, start + i + 1);
        assert(next.drop_last() =~= data@.subrange(start as int, start + i));
        proof {
            lemma_numeral_bound(next);
            lemma_pow_256_8();
            lemma_pow_increases(256, (i + 1) as nat, 8);
        }
        value = value * 256 + data[start + i] as u64;
        i = i + 1;
    }
    value
}

/// Reads the word of exactly 32 bytes.
pub fn word_from_bytes(data: &Vec<u8>) -> (r: Option<U256>)
    ensures
        r == word_in(data@),
{
    broadcast use group_u256;

    if data.len() != 32 {
        return None;
    }
    let l3: u64 = read_limb(data, 0);
    let l2: u64 = read_limb(data, 8);
    let l1: u64 = read_limb(data, 16);
    let l0: u64 = read_limb(data, 24);
    let word = U256 { l0, l1, l2, l3 };
    proof {
        let a = data@.subrange(0, 8);
        let b = data@.subrange(8, 16);
        let c = data@.subrange(16, 24);
        let d = data@.subrange(24, 32);
        assert(data@ =~= ((a + b) + c) + d);
        lemma_numeral_append((a + b) + c, d);
        lemma_numeral_append(a + b, c);
        lemma_numeral_append(a, b);
        lemma_pow_256_8();
        lemma_u256_inverse(word);
    }
    Some(word)
}

proof fn lemma_numeral_big_endian(n: nat, length: nat)
    ensures
        pow(256, length) > 0,
        numeral(big_endian(n, length)) == n % (pow(256, length) as nat),
    decreases length,
{
    lemma_pow_positive(256, length);
    if length == 0 {
        lemma_pow0(256);
        assert(n % 1 == 0);
    } else {
        let bytes = big_endian(n, length);
        let shorter = big_endian(n / 256, (length - 1) as nat);
        assert(bytes.drop_last() =~= shorter) by {
            assert forall|i: int| 0 <= i < length - 1 implies bytes[i] == shorter[i] by {
                let place = (length - 1 - i) as nat;
                let below = (length - 2 - i) as nat;
                lemma_pow_unfold(256, place);
                lemma_pow_positive(256, below);
                lemma_div_denominator(n as int, 256, pow(256, below));
            }
        }
        lemma_numeral_big_endian(n / 256, (length - 1) as nat);
        lemma_pow0(256);
        assert(bytes.last() == base256_digit(n, 0));
        assert(n / 1 == n);
        lemma_pow_unfold(256, length);
        let weight = pow(256, (length - 1) as nat);
        lemma_pow_positive(256, (length - 1) as nat);
        lemma_mod_breakdown(n as int, 256, weight);
    }
}

/// Reading the bytes of a word gives back the word.
pub proof fn reading_undoes_writing_words(value: U256)
    ensures
        word_in(big_endian(value@, 32)) == Some(value),
{
    broadcast use group_u256;

    lemma_numeral_big_endian(value@, 32);
    lemma_pow_256_8();
    lemma_pow_adds(256, 8, 8);
    lemma_pow_adds(256, 16, 16);
    let eight = pow(256, 8);
    let sixteen = pow(256, 16);
    assert(eight * eight == 0x1_0000000000000000_0000000000000000int) by (nonlinear_arith)
        requires
            eight == 0x1_0000000000000000int,
    ;
    assert(sixteen * sixteen == word_modulus()) by (nonlinear_arith)
        requires
            sixteen == 0x1_0000000000000000_0000000000000000int,
    ;
    lemma_small_mod(value@, pow(256, 32) as nat);
    lemma_u256_inverse(value);
}

} // verus!
