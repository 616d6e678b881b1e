//! 256-bit unsigned amounts.
//!
//! `U256` holds four 64-bit limbs (least significant first) and is viewed as the natural number
//! they spell. Multiplication, division, checked and saturating arithmetic and comparison are
//! carried out by the `U256` of `sails_rs` (the `uint` implementation); the few remaining
//! operations are plain enough to be written and proved here.
use sails_rs::U256 as Word256;
use vstd::arithmetic::div_mod::lemma_fundamental_div_mod_converse;
use vstd::prelude::*;

verus! {

#[verifier::external_type_specification]
#[verifier::external_body]
pub struct ExWord256(Word256);

/// 2^256 - 1, the largest amount.
pub open spec fn u256_max() -> nat {
    0xffff_ffff_ffff_ffff_ffff_ffff_ffff_ffff_ffff_ffff_ffff_ffff_ffff_ffff_ffff_ffffnat
}

pub open spec fn sat_add(a: nat, b: nat) -> nat {
    if a + b > u256_max() { u256_max() } else { a + b }
}

pub open spec fn sat_sub(a: nat, b: nat) -> nat {
    if a >= b { (a - b) as nat } else { 0 }
}

pub open spec fn sat_mul(a: nat, b: nat) -> nat {
    if a * b > u256_max() { u256_max() } else { a * b }
}

pub open spec fn max_nat(a: nat, b: nat) -> nat {
    if a >= b { a } else { b }
}

pub open spec fn min_nat(a: nat, b: nat) -> nat {
    if a <= b { a } else { b }
}

/// An unsigned 256-bit integer.
#[derive(Clone, Copy, Debug, PartialEq, Eq, Structural)]
pub struct U256 {
    w0: u64,
    w1: u64,
    w2: u64,
    w3: u64,
}

impl View for U256 {
    type V = nat;

    closed spec fn view(&self) -> nat {
        (self.w0 + self.w1 * 0x1_0000_0000_0000_0000int + self.w2
            * 0x1_0000_0000_0000_0000_0000_0000_0000_0000int + self.w3
            * 0x1_0000_0000_0000_0000_0000_0000_0000_0000_0000_0000_0000_0000int) as nat
    }
}

/// Every amount fits in 256 bits.
pub broadcast proof fn lemma_u256_bounded(x: U256)
    ensures
        #[trigger] x@ <= u256_max(),
{
}

/// Two amounts with the same value are the same amount.
pub proof fn lemma_view_injective(a: U256, b: U256)
    requires
        a@ == b@,
    ensures
        a == b,
{
    let d: int = 0x1_0000_0000_0000_0000;
    let a2 = a.w2 + d * a.w3;
    let b2 = b.w2 + d * b.w3;
    let a1 = a.w1 + d * a2;
    let b1 = b.w1 + d * b2;
    assert(a@ == a.w0 + d * a1) by (nonlinear_arith)
        requires
            a@ == a.w0 + a.w1 * 0x1_0000_0000_0000_0000int + a.w2
                * 0x1_0000_0000_0000_0000_0000_0000_0000_0000int + a.w3
                * 0x1_0000_0000_0000_0000_0000_0000_0000_0000_0000_0000_0000_0000int,
            d == 0x1_0000_0000_0000_0000,
            a1 == a.w1 + d * a2,
            a2 == a.w2 + d * a.w3,
    ;
    assert(b@ == b.w0 + d * b1) by (nonlinear_arith)
        requires
            b@ == b.w0 + b.w1 * 0x1_0000_0000_0000_0000int + b.w2
                * 0x1_0000_0000_0000_0000_0000_0000_0000_0000int + b.w3
                * 0x1_0000_0000_0000_0000_0000_0000_0000_0000_0000_0000_0000_0000int,
            d == 0x1_0000_0000_0000_0000,
            b1 == b.w1 + d * b2,
            b2 == b.w2 + d * b.w3,
    ;
    assert(a1 >= 0 && b1 >= 0 && a2 >= 0 && b2 >= 0) by (nonlinear_arith)
        requires
            d > 0,
            a1 == a.w1 + d * a2,
            a2 == a.w2 + d * a.w3,
            b1 == b.w1 + d * b2,
            b2 == b.w2 + d * b.w3,
    ;
    lemma_fundamental_div_mod_converse(a@ as int, d, a1, a.w0 as int);
    lemma_fundamental_div_mod_converse(b@ as int, d, b1, b.w0 as int);
    lemma_fundamental_div_mod_converse(a1, d, a2, a.w1 as int);
    lemma_fundamental_div_mod_converse(b1, d, b2, b.w1 as int);
    lemma_fundamental_div_mod_converse(a2, d, a.w3 as int, a.w2 as int);
    lemma_fundamental_div_mod_converse(b2, d, b.w3 as int, b.w2 as int);
}

// --- calls into the `uint` arithmetic of `sails_rs` ------------------------------------------

/// `checked_add` of `sails_rs::U256`: the sum, or `None` when it exceeds 2^256 - 1.
#[verifier::external_body]
fn word_checked_add(a: U256, b: U256) -> (r: Option<U256>)
    ensures
        match r {
            Some(v) => a@ + b@ <= u256_max() && v@ == a@ + b@,
            None => a@ + b@ > u256_max(),
        },
{
    match Word256([a.w0, a.w1, a.w2, a.w3]).checked_add(Word256([b.w0, b.w1, b.w2, b.w3])) {
        Some(Word256([w0, w1, w2, w3])) => Some(U256 { w0, w1, w2, w3 }),
        None => None,
    }
}

/// `checked_sub` of `sails_rs::U256`: the difference, or `None` when `b > a`.
#[verifier::external_body]
fn word_checked_sub(a: U256, b: U256) -> (r: Option<U256>)
    ensures
        match r {
            Some(v) => a@ >= b@ && v@ == a@ - b@,
            None => a@ < b@,
        },
{
    match Word256([a.w0, a.w1, a.w2, a.w3]).checked_sub(Word256([b.w0, b.w1, b.w2, b.w3])) {
        Some(Word256([w0, w1, w2, w3])) => Some(U256 { w0, w1, w2, w3 }),
        None => None,
    }
}

/// `checked_mul` of `sails_rs::U256`: the product, or `None` when it exceeds 2^256 - 1.
#[verifier::external_body]
fn word_checked_mul(a: U256, b: U256) -> (r: Option<U256>)
    ensures
        match r {
            Some(v) => a@ * b@ <= u256_max() && v@ == a@ * b@,
            None => a@ * b@ > u256_max(),
        },
{
    match Word256([a.w0, a.w1, a.w2, a.w3]).checked_mul(Word256([b.w0, b.w1, b.w2, b.w3])) {
        Some(Word256([w0, w1, w2, w3])) => Some(U256 { w0, w1, w2, w3 }),
        None => None,
    }
}

/// `saturating_add` of `sails_rs::U256`: the sum, capped at 2^256 - 1.
#[verifier::external_body]
fn word_saturating_add(a: U256, b: U256) -> (r: U256)
    ensures
        r@ == sat_add(a@, b@),
{
    let Word256([w0, w1, w2, w3]) = Word256([a.w0, a.w1, a.w2, a.w3]).saturating_add(
        Word256([b.w0, b.w1, b.w2, b.w3]),
    );
    U256 { w0, w1, w2, w3 }
}

/// `saturating_sub` of `sails_rs::U256`: the difference, or zero when `b > a`.
#[verifier::external_body]
fn word_saturating_sub(a: U256, b: U256) -> (r: U256)
    ensures
        r@ == sat_sub(a@, b@),
{
    let Word256([w0, w1, w2, w3]) = Word256([a.w0, a.w1, a.w2, a.w3]).saturating_sub(
        Word256([b.w0, b.w1, b.w2, b.w3]),
    );
    U256 { w0, w1, w2, w3 }
}

/// `saturating_mul` of `sails_rs::U256`: the product, capped at 2^256 - 1.
#[verifier::external_body]
fn word_saturating_mul(a: U256, b: U256) -> (r: U256)
    ensures
        r@ == sat_mul(a@, b@),
{
    let Word256([w0, w1, w2, w3]) = Word256([a.w0, a.w1, a.w2, a.w3]).saturating_mul(
        Word256([b.w0, b.w1, b.w2, b.w3]),
    );
    U256 { w0, w1, w2, w3 }
}

/// `/` of `sails_rs::U256`: the quotient rounded down. It panics on a zero divisor, which
/// `requires` rules out.
#[verifier::external_body]
fn word_div(a: U256, b: U256) -> (r: U256)
    requires
        b@ > 0,
    ensures
        r@ == a@ / b@,
{
    let Word256([w0, w1, w2, w3]) = Word256([a.w0, a.w1, a.w2, a.w3]) / Word256(
        [b.w0, b.w1, b.w2, b.w3],
    );
    U256 { w0, w1, w2, w3 }
}

/// `<` of `sails_rs::U256`: whether `a` is below `b`.
#[verifier::external_body]
fn word_lt(a: U256, b: U256) -> (r: bool)
    ensures
        r == (a@ < b@),
{
    Word256([a.w0, a.w1, a.w2, a.w3]) < Word256([b.w0, b.w1, b.w2, b.w3])
}

// --- the verified surface -------------------------------------------------------------------

impl U256 {
    pub fn zero() -> (r: U256)
        ensures
            r@ == 0,
    {
        U256 { w0: 0, w1: 0, w2: 0, w3: 0 }
    }

    pub fn one() -> (r: U256)
        ensures
            r@ == 1,
    {
        U256 { w0: 1, w1: 0, w2: 0, w3: 0 }
    }

    /// 2^256 - 1.
    pub fn max_value() -> (r: U256)
        ensures
            r@ == u256_max(),
    {
        U256 { w0: u64::MAX, w1: u64::MAX, w2: u64::MAX, w3: u64::MAX }
    }

    pub fn from_u64(n: u64) -> (r: U256)
        ensures
            r@ == n,
    {
        U256 { w0: n, w1: 0, w2: 0, w3: 0 }
    }

    pub fn from_u32(n: u32) -> (r: U256)
        ensures
            r@ == n,
    {
        U256 { w0: n as u64, w1: 0, w2: 0, w3: 0 }
    }

    pub fn from_u128(n: u128) -> (r: U256)
        ensures
            r@ == n,
    {
        let lo = n as u64;
        let hi = (n >> 64u128) as u64;
        assert(n == (n as u64) as u128 + ((n >> 64u128) as u64) as u128 * 0x1_0000_0000_0000_0000u128)
            by (bit_vector);
        U256 { w0: lo, w1: hi, w2: 0, w3: 0 }
    }

    /// The amount spelled by four 64-bit limbs, least significant first.
    pub fn from_limbs(limbs: [u64; 4]) -> (r: U256)
        ensures
            r@ == limbs[0] + limbs[1] * 0x1_0000_0000_0000_0000int + limbs[2]
                * 0x1_0000_0000_0000_0000_0000_0000_0000_0000int + limbs[3]
                * 0x1_0000_0000_0000_0000_0000_0000_0000_0000_0000_0000_0000_0000int,
    {
        U256 { w0: limbs[0], w1: limbs[1], w2: limbs[2], w3: limbs[3] }
    }

    /// The four 64-bit limbs of the amount, least significant first.
    pub fn limbs(&self) -> (r: [u64; 4])
        ensures
            self@ == r[0] + r[1] * 0x1_0000_0000_0000_0000int + r[2]
                * 0x1_0000_0000_0000_0000_0000_0000_0000_0000int + r[3]
                * 0x1_0000_0000_0000_0000_0000_0000_0000_0000_0000_0000_0000_0000int,
    {
        [self.w0, self.w1, self.w2, self.w3]
    }

    pub fn is_zero(&self) -> (r: bool)
        ensures
            r == (self@ == 0),
    {
        self.w0 == 0 && self.w1 == 0 && self.w2 == 0 && self.w3 == 0
    }

    pub fn lt(&self, other: &U256) -> (r: bool)
        ensures
            r == (self@ < other@),
    {
        word_lt(*self, *other)
    }

    pub fn le(&self, other: &U256) -> (r: bool)
        ensures
            r == (self@ <= other@),
    {
        !word_lt(*other, *self)
    }

    pub fn gt(&self, other: &U256) -> (r: bool)
        ensures
            r == (self@ > other@),
    {
        word_lt(*other, *self)
    }

    pub fn ge(&self, other: &U256) -> (r: bool)
        ensures
            r == (self@ >= other@),
    {
        !word_lt(*self, *other)
    }

    /// Whether the two amounts are equal.
    pub fn eq_val(&self, other: &U256) -> (r: bool)
        ensures
            r == (self@ == other@),
    {
        !word_lt(*self, *other) && !word_lt(*other, *self)
    }

    pub fn checked_add(self, other: U256) -> (r: Option<U256>)
        ensures
            match r {
                Some(v) => self@ + other@ <= u256_max() && v@ == self@ + other@,
                None => self@ + other@ > u256_max(),
            },
    {
        word_checked_add(self, other)
    }

    pub fn checked_sub(self, other: U256) -> (r: Option<U256>)
        ensures
            match r {
                Some(v) => self@ >= other@ && v@ == self@ - other@,
                None => self@ < other@,
            },
    {
        word_checked_sub(self, other)
    }

    pub fn checked_mul(self, other: U256) -> (r: Option<U256>)
        ensures
            match r {
                Some(v) => self@ * other@ <= u256_max() && v@ == self@ * other@,
                None => self@ * other@ > u256_max(),
            },
    {
        word_checked_mul(self, other)
    }

    pub fn saturating_add(self, other: U256) -> (r: U256)
        ensures
            r@ == sat_add(self@, other@),
    {
        word_saturating_add(self, other)
    }

    pub fn saturating_sub(self, other: U256) -> (r: U256)
        ensures
            r@ == sat_sub(self@, other@),
    {
        word_saturating_sub(self, other)
    }

    pub fn saturating_mul(self, other: U256) -> (r: U256)
        ensures
            r@ == sat_mul(self@, other@),
    {
        word_saturating_mul(self, other)
    }

    /// The quotient, rounded down.
    pub fn div(self, other: U256) -> (r: U256)
        requires
            other@ > 0,
        ensures
            r@ == self@ / other@,
    {
        word_div(self, other)
    }

    /// The difference of two amounts where `other` is known not to exceed `self`.
    pub fn sub(self, other: U256) -> (r: U256)
        requires
            other@ <= self@,
        ensures
            r@ == self@ - other@,
    {
        word_saturating_sub(self, other)
    }

    /// The sum of two amounts known not to exceed 2^256 - 1.
    pub fn add(self, other: U256) -> (r: U256)
        requires
            self@ + other@ <= u256_max(),
        ensures
            r@ == self@ + other@,
    {
        word_saturating_add(self, other)
    }

    pub fn max(self, other: U256) -> (r: U256)
        ensures
            r@ == max_nat(self@, other@),
    {
        if word_lt(self, other) { other } else { self }
    }

    pub fn min(self, other: U256) -> (r: U256)
        ensures
            r@ == min_nat(self@, other@),
    {
        if word_lt(other, self) { other } else { self }
    }

    /// The lowest 64 bits.
    pub fn low_u64(&self) -> (r: u64)
        ensures
            r == self@ % 0x1_0000_0000_0000_0000,
    {
        let ghost q: int = self.w1 + self.w2 * 0x1_0000_0000_0000_0000int + self.w3
            * 0x1_0000_0000_0000_0000_0000_0000_0000_0000int;
        proof {
            assert(self@ == 0x1_0000_0000_0000_0000int * q + self.w0);
            lemma_fundamental_div_mod_converse(
                self@ as int,
                0x1_0000_0000_0000_0000int,
                q,
                self.w0 as int,
            );
        }
        self.w0
    }

    /// The lowest 32 bits.
    pub fn low_u32(&self) -> (r: u32)
        ensures
            r == self@ % 0x1_0000_0000,
    {
        let w0 = self.w0;
        let ghost q: int = (w0 / 0x1_0000_0000) + 0x1_0000_0000int * (self.w1 + self.w2
            * 0x1_0000_0000_0000_0000int + self.w3 * 0x1_0000_0000_0000_0000_0000_0000_0000_0000int);
        proof {
            assert((w0 as u32) == w0 % 0x1_0000_0000) by (bit_vector);
            assert(w0 == 0x1_0000_0000 * (w0 / 0x1_0000_0000) + w0 % 0x1_0000_0000) by (bit_vector);
            assert(self@ == 0x1_0000_0000int * q + (w0 % 0x1_0000_0000));
            lemma_fundamental_div_mod_converse(
                self@ as int,
                0x1_0000_0000int,
                q,
                (w0 % 0x1_0000_0000) as int,
            );
        }
        w0 as u32
    }
}

} // verus!
