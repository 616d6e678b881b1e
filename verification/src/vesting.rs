//! Linear vesting of reward tranches, shared by the pool and the vault.
//!
//! A tranche of `amount` is released linearly between `start` and `end` (milliseconds). A new
//! funding folds what is still locked into the new tranche, whose length is the
//! amount-weighted average of the time left and a full vesting period.
use crate::u256::{max_nat, sat_add, sat_mul, sat_sub, u256_max, U256};
use vstd::arithmetic::div_mod::{lemma_div_is_ordered, lemma_div_is_ordered_by_denominator};
use vstd::arithmetic::mul::{lemma_mul_inequality, lemma_mul_is_commutative};
use vstd::prelude::*;

verus! {

broadcast use crate::u256::lemma_u256_bounded;

/// Rewards of a tranche not yet released at `now`.
pub open spec fn locked_spec(amount: nat, start: u64, end: u64, now: u64) -> nat {
    if amount == 0 || now >= end {
        0
    } else if now <= start {
        amount
    } else {
        sat_mul(amount, (end - now) as nat) / ((end - start) as nat)
    }
}

/// `a + b` on milliseconds, capped at `u64::MAX`.
pub open spec fn sat_add_u64(a: u64, b: u64) -> u64 {
    if a + b > u64::MAX { u64::MAX } else { (a + b) as u64 }
}

/// The length of the tranche after funding `assets` while `remaining` is still locked, before
/// it is floored at one millisecond and narrowed to 64 bits.
pub open spec fn weighted_length(remaining: nat, assets: nat, period: u64, end: u64, now: u64) -> nat {
    if remaining == 0 {
        period as nat
    } else {
        sat_add(sat_mul(remaining, sat_sub(end as nat, now as nat)), sat_mul(assets, period as nat))
            / (remaining + assets)
    }
}

/// The length, in milliseconds, of the tranche after a funding.
pub open spec fn funded_length(remaining: nat, assets: nat, period: u64, end: u64, now: u64) -> nat {
    max_nat(weighted_length(remaining, assets, period, end, now), 1) % 0x1_0000_0000_0000_0000
}

/// Rewards of the tranche (`amount`, `start`, `end`) not yet released at `now`.
pub fn locked_at(amount: U256, start: u64, end: u64, now: u64) -> (r: U256)
    ensures
        r@ == locked_spec(amount@, start, end, now),
{
    if amount.is_zero() || now >= end {
        return U256::zero();
    }
    if now <= start {
        return amount;
    }
    let span = U256::from_u64(end - start);
    let left = U256::from_u64(end - now);
    amount.saturating_mul(left).div(span)
}

/// The length of the tranche that a funding of `assets` starts at `now`, while `remaining` of
/// the running tranche (ending at `end`) is still locked and `total` is their sum.
pub fn funded_tranche_length(
    remaining: U256,
    assets: U256,
    total: U256,
    period: u64,
    end: u64,
    now: u64,
) -> (r: u64)
    requires
        total@ == remaining@ + assets@,
    ensures
        r == funded_length(remaining@, assets@, period, end, now),
{
    let p = U256::from_u64(period);
    let time_left = if remaining.is_zero() {
        p
    } else {
        let left = U256::from_u64(end.saturating_sub(now));
        remaining.saturating_mul(left).saturating_add(assets.saturating_mul(p)).div(total)
    };
    time_left.max(U256::one()).low_u64()
}

/// `secs * 1000` capped at `u64::MAX` (std's `saturating_mul` on a duration in seconds).
pub open spec fn ms_of(secs: u64) -> u64 {
    if secs * 1000 > u64::MAX { u64::MAX } else { (secs * 1000) as u64 }
}

/// A duration in seconds as milliseconds, capped at `u64::MAX`.
pub fn secs_to_ms(secs: u64) -> (r: u64)
    ensures
        r == ms_of(secs),
{
    if secs <= u64::MAX / 1000 { secs * 1000 } else { u64::MAX }
}

// --- laws of the release schedule -------------------------------------------------------------

/// Nothing more than the tranche is ever locked.
pub proof fn lemma_locked_at_most_amount(amount: nat, start: u64, end: u64, now: u64)
    requires
        amount <= u256_max(),
    ensures
        locked_spec(amount, start, end, now) <= amount,
{
    if amount != 0 && now < end && now > start {
        let span = (end - start) as nat;
        let left = (end - now) as nat;
        assert(left < span);
        if amount * left > u256_max() {
            assert(u256_max() / span <= amount) by {
                lemma_mul_inequality(left as int, span as int, amount as int);
                lemma_mul_is_commutative(left as int, amount as int);
                lemma_mul_is_commutative(span as int, amount as int);
                assert(u256_max() < amount * span);
                lemma_div_is_ordered(u256_max() as int, (amount * span) as int, span as int);
                vstd::arithmetic::div_mod::lemma_div_multiples_vanish(amount as int, span as int);
                lemma_mul_is_commutative(span as int, amount as int);
            }
        } else {
            assert(amount * left / span <= amount) by {
                lemma_mul_inequality(left as int, span as int, amount as int);
                lemma_mul_is_commutative(left as int, amount as int);
                lemma_mul_is_commutative(span as int, amount as int);
                lemma_div_is_ordered((amount * left) as int, (amount * span) as int, span as int);
                vstd::arithmetic::div_mod::lemma_div_multiples_vanish(amount as int, span as int);
                lemma_mul_is_commutative(span as int, amount as int);
            }
        }
    }
}

/// Nothing is locked at or after the end of the tranche.
pub proof fn lemma_locked_zero_after_end(amount: nat, start: u64, end: u64, now: u64)
    requires
        now >= end,
    ensures
        locked_spec(amount, start, end, now) == 0,
{
}

proof fn lemma_sat_mul_monotone(a: nat, x: nat, y: nat)
    requires
        x <= y,
    ensures
        sat_mul(a, x) <= sat_mul(a, y),
{
    lemma_mul_inequality(x as int, y as int, a as int);
    lemma_mul_is_commutative(x as int, a as int);
    lemma_mul_is_commutative(y as int, a as int);
}

/// What is locked never grows as time passes.
pub proof fn lemma_locked_nonincreasing(amount: nat, start: u64, end: u64, t1: u64, t2: u64)
    requires
        amount <= u256_max(),
        t1 <= t2,
    ensures
        locked_spec(amount, start, end, t2) <= locked_spec(amount, start, end, t1),
{
    lemma_locked_at_most_amount(amount, start, end, t2);
    if amount != 0 && t2 < end && t1 > start {
        let span = (end - start) as nat;
        lemma_sat_mul_monotone(amount, (end - t2) as nat, (end - t1) as nat);
        lemma_div_is_ordered(
            sat_mul(amount, (end - t2) as nat) as int,
            sat_mul(amount, (end - t1) as nat) as int,
            span as int,
        );
    }
}

/// A new tranche never runs longer than the longer of the time the running tranche had left
/// and a full vesting period, and never shorter than a millisecond.
pub proof fn lemma_funded_length_bounded(remaining: nat, assets: nat, period: u64, end: u64, now: u64)
    requires
        period > 0,
    ensures
        1 <= funded_length(remaining, assets, period, end, now),
        funded_length(remaining, assets, period, end, now) <= max_nat(
            sat_sub(end as nat, now as nat),
            period as nat,
        ),
{
    let left = sat_sub(end as nat, now as nat);
    let m = max_nat(left, period as nat);
    let w = weighted_length(remaining, assets, period, end, now);
    if remaining > 0 {
        let num = sat_add(sat_mul(remaining, left), sat_mul(assets, period as nat));
        let den = remaining + assets;
        assert(remaining * left <= remaining * m) by {
            lemma_mul_inequality(left as int, m as int, remaining as int);
            lemma_mul_is_commutative(left as int, remaining as int);
            lemma_mul_is_commutative(m as int, remaining as int);
        }
        assert(assets * period <= assets * m) by {
            lemma_mul_inequality(period as int, m as int, assets as int);
            lemma_mul_is_commutative(period as int, assets as int);
            lemma_mul_is_commutative(m as int, assets as int);
        }
        assert(remaining * m + assets * m == den * m) by {
            vstd::arithmetic::mul::lemma_mul_is_distributive_add_other_way(
                m as int,
                remaining as int,
                assets as int,
            );
        }
        assert(num <= den * m);
        lemma_div_is_ordered(num as int, (den * m) as int, den as int);
        vstd::arithmetic::div_mod::lemma_div_multiples_vanish(m as int, den as int);
        lemma_mul_is_commutative(den as int, m as int);
    }
    assert(w <= m);
    assert(m <= u64::MAX);
    assert(max_nat(w, 1) < 0x1_0000_0000_0000_0000);
    vstd::arithmetic::div_mod::lemma_small_mod(max_nat(w, 1), 0x1_0000_0000_0000_0000);
}

} // verus!
