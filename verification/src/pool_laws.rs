//! What the pool's operations keep, and what one call undoes of another.
use crate::actor::{lemma_key_injective, ActorId, Key};
use crate::ledger::{
    amount_of, amounts, debited, lemma_amount_le_total, lemma_no_zero_kept, lemma_total_credited,
    lemma_total_debited, lemma_total_insert, lemma_total_priced, lemma_priced_not_lower, priced, lemma_total_moved, lemma_total_remove, lemma_two_amounts_le_total, no_zero_entry, total,
};
use crate::pool::{YEAR_SECS, BPS, KEEP_VARA, session_views, Session, scale_nat, virtual_shares_nat, PoolError, PoolState, UnstakePreview, MIN_PAYOUT, MIN_STAKE};
use crate::u256::{lemma_view_injective, max_nat, min_nat, sat_add, sat_mul, sat_sub, u256_max, U256};
use vstd::arithmetic::div_mod::lemma_div_is_ordered;
use vstd::arithmetic::mul::lemma_mul_inequality;
use crate::unbonds::{
    assets_of, book_ok, first_with, has_id, ids_ascending, lemma_assets_push, lemma_assets_remove,
    lemma_sorted_same_entries, list_of, lists, owed, Unbond,
};
use crate::vesting::{
    lemma_funded_length_bounded, lemma_locked_at_most_amount, lemma_locked_nonincreasing,
    locked_spec, sat_add_u64, weighted_length,
};
use vstd::prelude::*;

verus! {

broadcast use crate::u256::lemma_u256_bounded;

impl PoolState {
    /// The shares outstanding are the sum of the balances, and no zero balance is stored.
    pub open spec fn shares_consistent(&self) -> bool {
        &&& self.balances@.dom().finite()
        &&& self.total_shares@ == total(amounts(self.balances@))
        &&& no_zero_entry(amounts(self.balances@))
    }

    /// The reserve covers the fees, the VARA locked for unbonds and the rewards still vesting
    /// at `now`.
    pub open spec fn solvent(&self, now: u64) -> bool {
        self.reserve@ >= self.fees_accrued@ + self.unbonding_total@ + self.locked(now)
    }
}

// --- shares: the supply is the sum of the balances ------------------------------------------

/// A transfer of shares keeps the supply equal to the sum of the balances; on consistent books
/// it never fails for overflow.
pub proof fn law_transfer_keeps_shares(
    s: PoolState,
    t: PoolState,
    from: ActorId,
    to: ActorId,
    value: nat,
    r: Result<(), PoolError>,
)
    requires
        s.shares_consistent(),
        s.transfer_post(&t, from, to, value, r),
    ensures
        t.shares_consistent(),
        r != Err::<(), PoolError>(PoolError::Overflow),
{
    let m = amounts(s.balances@);
    assert(m.dom() == s.balances@.dom());
    assert(amounts(t.balances@).dom() == t.balances@.dom());
    if !s.paused && !to.is_zero_spec() && value > 0 && value <= s.balance(from) {
        let mid = debited(m, from.key(), value);
        lemma_total_moved(m, from.key(), to.key(), value);
        lemma_no_zero_kept(m, from.key(), to.key(), value);
        lemma_total_debited(m, from.key(), value);
        if from.key() != to.key() {
            lemma_two_amounts_le_total(m, from.key(), to.key());
            assert(amount_of(mid, to.key()) == amount_of(m, to.key()));
        }
    }
}

/// A stake mints exactly the shares it credits.
pub proof fn law_stake_keeps_shares(
    s: PoolState,
    t: PoolState,
    owner: ActorId,
    assets: nat,
    now: u64,
    r: Result<U256, PoolError>,
)
    requires
        s.shares_consistent(),
        s.stake_post(&t, owner, assets, now, r),
    ensures
        t.shares_consistent(),
{
    let m = amounts(s.balances@);
    assert(m.dom() == s.balances@.dom());
    assert(amounts(t.balances@).dom() == t.balances@.dom());
    if !s.paused && assets >= MIN_STAKE && s.shares_quote(assets, now) is Some {
        let q = s.shares_quote(assets, now)->0;
        if q > 0 && s.can_mint(owner, q) {
            lemma_total_credited(m, owner.key(), q);
            lemma_no_zero_kept(m, owner.key(), owner.key(), q);
        }
    }
}

/// Burning `value` of `from`'s shares (as an exit does) keeps the supply equal to the sum of
/// the balances.
proof fn lemma_burn_keeps_shares(s: PoolState, t: PoolState, from: ActorId, value: nat, now: u64)
    requires
        s.shares_consistent(),
        value > 0,
        value <= s.balance(from),
        s.burned(&t, from, value, now),
    ensures
        t.shares_consistent(),
{
    let m = amounts(s.balances@);
    assert(m.dom() == s.balances@.dom());
    assert(amounts(t.balances@).dom() == t.balances@.dom());
    lemma_total_debited(m, from.key(), value);
    lemma_no_zero_kept(m, from.key(), from.key(), value);
}

/// An instant exit burns exactly the shares it debits; on consistent books the burn itself
/// never fails.
pub proof fn law_unstake_keeps_shares(
    s: PoolState,
    t: PoolState,
    owner: ActorId,
    shares: U256,
    now: u64,
    r: Result<UnstakePreview, PoolError>,
)
    requires
        s.shares_consistent(),
        s.unstake_post(&t, owner, shares, now, r),
    ensures
        t.shares_consistent(),
{
    let m = amounts(s.balances@);
    if !s.paused && shares@ > 0 && s.balance(owner) >= shares@ && s.assets_quote(shares@, now)
        is Some {
        assert(m.dom() == s.balances@.dom());
        lemma_amount_le_total(m, owner.key());
        let a = s.assets_quote(shares@, now)->0;
        if !(a - s.fee_on(a) < MIN_PAYOUT) && !(a > s.distributable_at(now)) {
            lemma_burn_keeps_shares(s, t, owner, shares@, now);
        }
    }
}

/// A timed exit burns exactly the shares it debits; on consistent books the burn itself never
/// fails.
pub proof fn law_unbond_keeps_shares(
    s: PoolState,
    t: PoolState,
    owner: ActorId,
    shares: U256,
    now: u64,
    r: Result<Unbond, PoolError>,
)
    requires
        s.shares_consistent(),
        s.unbond_post(&t, owner, shares, now, r),
    ensures
        t.shares_consistent(),
{
    let m = amounts(s.balances@);
    if !s.paused && shares@ > 0 && s.balance(owner) >= shares@ && s.assets_quote(shares@, now)
        is Some {
        assert(m.dom() == s.balances@.dom());
        lemma_amount_le_total(m, owner.key());
        let a = s.assets_quote(shares@, now)->0;
        if !(a < MIN_PAYOUT) && !(a > s.distributable_at(now)) {
            lemma_burn_keeps_shares(s, t, owner, shares@, now);
        }
    }
}

/// Undoing an exit mints back exactly the shares it credits.
pub proof fn law_revert_keeps_shares(
    s: PoolState,
    t: PoolState,
    owner: ActorId,
    shares: nat,
    fee: nat,
    net: nat,
)
    requires
        s.shares_consistent(),
        shares > 0,
        s.revert_post(&t, owner, shares, fee, net),
    ensures
        t.shares_consistent(),
{
    let m = amounts(s.balances@);
    assert(m.dom() == s.balances@.dom());
    assert(amounts(t.balances@).dom() == t.balances@.dom());
    if s.can_mint(owner, shares) {
        lemma_total_credited(m, owner.key(), shares);
        lemma_no_zero_kept(m, owner.key(), owner.key(), shares);
    }
}

// --- solvency: the reserve covers what is owed ------------------------------------------------

/// Solvency at one instant holds at every later instant: what is locked only shrinks.
pub proof fn law_solvent_later(s: PoolState, t1: u64, t2: u64)
    requires
        s.solvent(t1),
        t1 <= t2,
    ensures
        s.solvent(t2),
{
    lemma_locked_nonincreasing(s.vest_amount@, s.vest_start_ms, s.vest_end_ms, t1, t2);
}

/// While solvent, what is distributable is exactly the reserve minus fees, unbonding VARA and
/// locked rewards.
proof fn lemma_distributable_exact(s: PoolState, now: u64)
    requires
        s.solvent(now),
    ensures
        s.distributable_at(now) == s.reserve@ - s.fees_accrued@ - s.unbonding_total@ - s.locked(
            now,
        ),
{
}

/// A stake keeps the pool solvent.
pub proof fn law_stake_keeps_solvent(
    s: PoolState,
    t: PoolState,
    owner: ActorId,
    assets: nat,
    now: u64,
    r: Result<U256, PoolError>,
)
    requires
        s.solvent(now),
        s.stake_post(&t, owner, assets, now, r),
    ensures
        t.solvent(now),
{
    lemma_distributable_exact(s, now);
}

/// An instant exit keeps the pool solvent: it pays out of what is distributable.
pub proof fn law_unstake_keeps_solvent(
    s: PoolState,
    t: PoolState,
    owner: ActorId,
    shares: U256,
    now: u64,
    r: Result<UnstakePreview, PoolError>,
)
    requires
        s.solvent(now),
        s.unstake_post(&t, owner, shares, now, r),
    ensures
        t.solvent(now),
{
    lemma_distributable_exact(s, now);
}

/// A timed exit keeps the pool solvent: it locks VARA out of what is distributable.
pub proof fn law_unbond_keeps_solvent(
    s: PoolState,
    t: PoolState,
    owner: ActorId,
    shares: U256,
    now: u64,
    r: Result<Unbond, PoolError>,
)
    requires
        s.solvent(now),
        s.unbond_post(&t, owner, shares, now, r),
    ensures
        t.solvent(now),
{
    lemma_distributable_exact(s, now);
}

/// Funding rewards keeps the pool solvent: the new tranche is backed by the VARA that came
/// with it, and a refused funding changes nothing.
pub proof fn law_fund_keeps_solvent(
    s: PoolState,
    t: PoolState,
    assets: nat,
    now: u64,
    r: Result<(), PoolError>,
)
    requires
        s.solvent(now),
        s.fund_post(&t, assets, now, r),
    ensures
        t.solvent(now),
{
    lemma_locked_at_most_amount(t.vest_amount@, t.vest_start_ms, t.vest_end_ms, now);
}

// --- rewards: vesting and funding -------------------------------------------------------------

/// Funding releases nothing at the funding instant: what is locked grows by exactly the amount
/// funded, and neither what is distributable, the rate nor the backing moves.
pub proof fn law_fund_releases_nothing(
    s: PoolState,
    t: PoolState,
    assets: nat,
    now: u64,
)
    requires
        s.solvent(now),
        s.fund_post(&t, assets, now, Ok(())),
        now < u64::MAX,
        s.vesting_period_ms > 0,
    ensures
        t.locked(now) == s.locked(now) + assets,
        t.distributable_at(now) == s.distributable_at(now),
        t.rate(now) == s.rate(now),
        t.backed(now) == s.backed(now),
{
    lemma_funded_length_bounded(
        s.locked(now),
        assets,
        s.vesting_period_ms,
        s.vest_end_ms,
        now,
    );
    lemma_distributable_exact(s, now);
}

/// A funding never pushes the end of the tranche past the later of the running tranche's end
/// and a full vesting period from now.
pub proof fn law_fund_end_bounded(s: PoolState, t: PoolState, assets: nat, now: u64)
    requires
        s.fund_post(&t, assets, now, Ok(())),
        s.vesting_period_ms > 0,
    ensures
        t.vest_end_ms > now || now == u64::MAX,
        t.vest_end_ms <= s.vest_end_ms || t.vest_end_ms <= sat_add_u64(now, s.vesting_period_ms),
{
    lemma_funded_length_bounded(
        s.locked(now),
        assets,
        s.vesting_period_ms,
        s.vest_end_ms,
        now,
    );
}

/// The release schedule of the running tranche: never more than the tranche is locked, what
/// is locked only shrinks with time, all of it is locked up to the start, and nothing at or
/// after the end.
pub proof fn law_locked_rewards_schedule(s: PoolState, t1: u64, t2: u64)
    requires
        t1 <= t2,
    ensures
        s.locked(t1) <= s.vest_amount@,
        s.locked(t2) <= s.locked(t1),
        t1 >= s.vest_end_ms ==> s.locked(t1) == 0,
        t1 <= s.vest_start_ms && t1 < s.vest_end_ms ==> s.locked(t1) == s.vest_amount@,
{
    lemma_locked_at_most_amount(s.vest_amount@, s.vest_start_ms, s.vest_end_ms, t1);
    lemma_locked_nonincreasing(s.vest_amount@, s.vest_start_ms, s.vest_end_ms, t1, t2);
}

// --- rescuing surplus VARA --------------------------------------------------------------------

/// A rescue never touches what the pool owes: it is accepted only when, after paying it out of
/// the program's balance (without the value attached to the message), the balance still covers
/// the reserve and the keep-alive buffer; and the admin's rescue of any such amount to a real
/// account is accepted.
pub proof fn law_rescue_never_touches_the_reserve(
    s: PoolState,
    caller: ActorId,
    to: ActorId,
    assets: U256,
    value_available: u128,
    message_value: u128,
    r: Result<(), PoolError>,
)
    requires
        s.rescue_answer(caller, to, assets, value_available, message_value, r),
    ensures
        r is Ok ==> message_value as nat + assets@ + s.reserve@ + KEEP_VARA as nat
            <= value_available as nat,
        caller == s.admin && !to.is_zero_spec() && assets@ > 0 && message_value as nat + assets@
            + s.reserve@ + KEEP_VARA as nat <= value_available as nat ==> r is Ok,
{
}

// --- the reported APY and the length of a funded tranche --------------------------------------

/// While a tranche is running, the reported APY is the tranche's release rate annualised over
/// what is distributable: `vest_amount` spread over the tranche's span, times a year, in basis
/// points of the distributable assets, rounded down and capped at `u32::MAX`. It does not
/// depend on how much of the tranche has vested already. Left out: a tranche or a distributable
/// amount so large that the products saturate.
pub proof fn law_apy_is_the_annualised_release_rate(s: PoolState, now: u64)
    requires
        s.vest_start_ms < now < s.vest_end_ms,
        s.vest_amount@ > 0,
        s.total_shares@ > 0,
        s.distributable_at(now) > 0,
        s.vest_amount@ * ((YEAR_SECS * 1000) as nat) * (BPS as nat) <= u256_max(),
        ((s.vest_end_ms - s.vest_start_ms) as nat) * s.distributable_at(now) <= u256_max(),
    ensures
        s.apy(now) as nat == min_nat(
            s.vest_amount@ * ((YEAR_SECS * 1000) as nat) * (BPS as nat) / (((s.vest_end_ms
                - s.vest_start_ms) as nat) * s.distributable_at(now)),
            u32::MAX as nat,
        ),
{
}

/// Two instants inside the same running tranche with the same distributable assets report the
/// same APY. Left out: products that saturate.
pub proof fn law_apy_ignores_what_has_vested(s: PoolState, t1: u64, t2: u64)
    requires
        s.vest_start_ms < t1 < s.vest_end_ms,
        s.vest_start_ms < t2 < s.vest_end_ms,
        s.vest_amount@ > 0,
        s.total_shares@ > 0,
        s.distributable_at(t1) > 0,
        s.distributable_at(t1) == s.distributable_at(t2),
        s.vest_amount@ * ((YEAR_SECS * 1000) as nat) * (BPS as nat) <= u256_max(),
        ((s.vest_end_ms - s.vest_start_ms) as nat) * s.distributable_at(t1) <= u256_max(),
    ensures
        s.apy(t1) == s.apy(t2),
{
    law_apy_is_the_annualised_release_rate(s, t1);
    law_apy_is_the_annualised_release_rate(s, t2);
}

/// A funding while `rem` is still locked with `left` milliseconds to go starts a tranche whose
/// length is the amount-weighted average of the time left and a full vesting period, rounded
/// down and at least a millisecond. So it lies between the two, and a funding larger than
/// what is still locked, with at least two milliseconds less than a full period left, ends
/// later than the running tranche. Left out: amounts so large that the weighting's products saturate, and an end past
/// `u64::MAX`.
pub proof fn law_fund_weights_the_tranche(s: PoolState, t: PoolState, assets: nat, now: u64)
    requires
        s.fund_post(&t, assets, now, Ok(())),
        s.locked(now) > 0,
        now < s.vest_end_ms,
        s.locked(now) * ((s.vest_end_ms - now) as nat) + assets * (s.vesting_period_ms as nat)
            <= u256_max(),
        now as nat + max_nat((s.vest_end_ms - now) as nat, s.vesting_period_ms as nat) <= u64::MAX,
    ensures
        t.vest_start_ms == now,
        t.vest_end_ms - now == max_nat(
            (s.locked(now) * ((s.vest_end_ms - now) as nat) + assets * (s.vesting_period_ms as nat))
                / (s.locked(now) + assets),
            1,
        ),
        min_nat((s.vest_end_ms - now) as nat, s.vesting_period_ms as nat) <= t.vest_end_ms - now,
        t.vest_end_ms - now <= max_nat((s.vest_end_ms - now) as nat, s.vesting_period_ms as nat),
        assets > s.locked(now) && (s.vest_end_ms - now) + 2 <= s.vesting_period_ms ==> t.vest_end_ms
            > s.vest_end_ms,
{
    let rem = s.locked(now);
    let left = (s.vest_end_ms - now) as nat;
    let period = s.vesting_period_ms as nat;
    let num = rem * left + assets * period;
    let den = rem + assets;
    let w = num / den;
    assert(sat_sub(s.vest_end_ms as nat, now as nat) == left);
    assert(sat_mul(rem, left) == rem * left);
    assert(assets * period <= u256_max()) by (nonlinear_arith)
        requires
            rem * left + assets * period <= u256_max(),
            rem * left >= 0,
    ;
    assert(sat_mul(assets, period) == assets * period);
    assert(weighted_length(rem, assets, s.vesting_period_ms, s.vest_end_ms, now) == w);
    let lo = min_nat(left, period);
    let hi = max_nat(left, period);
    assert(lo * den <= num && num <= hi * den) by (nonlinear_arith)
        requires
            lo <= left,
            lo <= period,
            left <= hi,
            period <= hi,
            den == rem + assets,
            num == rem * left + assets * period,
    ;
    assert(lo <= w && w <= hi) by (nonlinear_arith)
        requires
            den > 0,
            w == num / den,
            lo * den <= num,
            num <= hi * den,
    ;
    assert(left >= 1);
    assert(max_nat(w, 1) < 0x1_0000_0000_0000_0000);
    vstd::arithmetic::div_mod::lemma_small_mod(max_nat(w, 1), 0x1_0000_0000_0000_0000);
    if assets > rem && left + 2 <= period {
        assert(num >= (left + 1) * den) by (nonlinear_arith)
            requires
                assets > rem,
                left + 2 <= period,
                den == rem + assets,
                num == rem * left + assets * period,
        ;
        assert(w > left) by (nonlinear_arith)
            requires
                den > 0,
                w == num / den,
                num >= (left + 1) * den,
        ;
    }
}

/// Funding a single unit never moves the end of a running tranche that has no more than a full
/// period left and still locks at least as many units as the period exceeds the time left:
/// dust cannot stretch a tranche. Left out: a locked amount so large that the weighting's
/// product saturates.
pub proof fn law_dust_fund_keeps_end(s: PoolState, t: PoolState, now: u64)
    requires
        s.fund_post(&t, 1, now, Ok(())),
        now < s.vest_end_ms,
        s.vest_end_ms - now <= s.vesting_period_ms,
        s.locked(now) > 0,
        s.locked(now) + (s.vest_end_ms - now) >= s.vesting_period_ms,
        s.locked(now) * ((s.vest_end_ms - now) as nat) + s.vesting_period_ms <= u256_max(),
    ensures
        t.vest_end_ms == s.vest_end_ms,
        t.vest_start_ms == now,
        t.vest_amount@ == s.locked(now) + 1,
{
    let rem = s.locked(now);
    let left = (s.vest_end_ms - now) as nat;
    let period = s.vesting_period_ms as nat;
    assert(sat_sub(s.vest_end_ms as nat, now as nat) == left);
    assert(sat_mul(1, period) == period);
    assert(sat_mul(rem, left) == rem * left);
    assert(left * (rem + 1) == rem * left + left) by (nonlinear_arith);
    vstd::arithmetic::div_mod::lemma_fundamental_div_mod_converse(
        (rem * left + period) as int,
        (rem + 1) as int,
        left as int,
        (period - left) as int,
    );
    vstd::arithmetic::div_mod::lemma_small_mod(left, 0x1_0000_0000_0000_0000);
}

/// Funding when nothing is left locked starts a tranche of a full vesting period.
pub proof fn law_fresh_tranche_full_period(s: PoolState, t: PoolState, assets: nat, now: u64)
    requires
        s.fund_post(&t, assets, now, Ok(())),
        s.locked(now) == 0,
        s.vesting_period_ms > 0,
    ensures
        t.vest_start_ms == now,
        t.vest_end_ms == sat_add_u64(now, s.vesting_period_ms),
        t.vest_amount@ == assets,
{
    vstd::arithmetic::div_mod::lemma_small_mod(
        s.vesting_period_ms as nat,
        0x1_0000_0000_0000_0000,
    );
}

// --- exits --------------------------------------------------------------------------------------

/// A timed exit is neutral for everybody else: the reserve does not move and what is
/// distributable goes down by exactly the VARA locked for the entry.
pub proof fn law_unbond_rate_neutral(
    s: PoolState,
    t: PoolState,
    owner: ActorId,
    shares: U256,
    now: u64,
    e: Unbond,
)
    requires
        s.unbond_post(&t, owner, shares, now, Ok(e)),
    ensures
        t.reserve == s.reserve,
        e.assets@ <= s.distributable_at(now),
        t.distributable_at(now) == s.distributable_at(now) - e.assets@,
{
}

/// Undoing an instant exit restores the pool exactly: the shares come back to the owner, the
/// fee leaves the bucket and the payout returns to the reserve. The one field that may differ
/// is the base rate, refreshed when the exit burned the last share.
pub proof fn law_revert_restores(
    s: PoolState,
    t: PoolState,
    u: PoolState,
    owner: ActorId,
    shares: U256,
    now: u64,
    p: UnstakePreview,
)
    requires
        s.unstake_post(&t, owner, shares, now, Ok(p)),
        t.revert_post(&u, owner, shares@, p.fee@, p.net@),
    ensures
        u.same_config(&s),
        u.same_funds(&s),
        u.same_vesting(&s),
        u.same_unbonds(&s),
        u.same_sessions(&s),
        u.total_shares == s.total_shares,
        amounts(u.balances@) == amounts(s.balances@),
        amounts(u.allowances@) == amounts(s.allowances@),
        s.total_shares@ != shares@ ==> u.base_rate == s.base_rate,
{
    let m = amounts(s.balances@);
    let k = owner.key();
    let a = s.assets_quote(shares@, now)->0;
    let d = s.distributable_at(now);
    assert(a - s.fee_on(a) >= MIN_PAYOUT);
    assert(a <= d);
    assert(d > 0);
    assert(s.fees_accrued@ + p.fee@ <= s.reserve@);
    assert(m.contains_key(k));
    assert(amount_of(debited(m, k, shares@), k) == amount_of(m, k) - shares@);
    assert(t.can_mint(owner, shares@));
    assert(amounts(u.balances@) =~= m);
    lemma_view_injective(u.total_shares, s.total_shares);
    lemma_view_injective(u.fees_accrued, s.fees_accrued);
    lemma_view_injective(u.reserve, s.reserve);
}

// --- quotes ---------------------------------------------------------------------------------------

proof fn lemma_floor_round_trip(x: nat, p: nat, d: nat)
    requires
        p > 0,
        d > 0,
    ensures
        (x * p / d) * d / p <= x,
{
    assert((x * p / d) * d <= x * p) by (nonlinear_arith)
        requires
            d > 0,
    ;
    assert((x * p / d) * d / p <= x) by (nonlinear_arith)
        requires
            p > 0,
            (x * p / d) * d <= x * p,
    ;
}

/// The basis of every quote is positive.
proof fn lemma_basis_positive(s: PoolState, now: u64)
    requires
        s.quotable(),
    ensures
        s.basis_assets(now) > 0,
        s.basis_shares() > 0,
{
    assert(virtual_shares_nat() * s.base_rate@ >= 1) by (nonlinear_arith)
        requires
            s.base_rate@ >= 1,
            virtual_shares_nat() >= 1,
    ;
    assert(s.virtual_assets() >= 1);
}

/// Buying shares for `assets` and selling them back at once never returns more than `assets`.
pub proof fn law_round_trip_assets(s: PoolState, assets: nat, now: u64, q: nat, back: nat)
    requires
        s.quotable(),
        s.shares_quote(assets, now) == Some(q),
        s.assets_quote(q, now) == Some(back),
    ensures
        back <= assets,
{
    lemma_basis_positive(s, now);
    lemma_floor_round_trip(assets, s.basis_shares(), s.basis_assets(now));
}

/// Selling `shares` and buying back with the proceeds at once never yields more than `shares`.
pub proof fn law_round_trip_shares(s: PoolState, shares: nat, now: u64, a: nat, back: nat)
    requires
        s.quotable(),
        s.assets_quote(shares, now) == Some(a),
        s.shares_quote(a, now) == Some(back),
    ensures
        back <= shares,
{
    lemma_basis_positive(s, now);
    lemma_floor_round_trip(shares, s.basis_assets(now), s.basis_shares());
}

/// Buying `q` shares for `a` on a basis of `x` assets over `y` shares, and selling them back on
/// the basis that buying leaves, returns at most `a`.
proof fn lemma_buy_then_sell(a: nat, x: nat, y: nat, q: nat)
    requires
        x > 0,
        y > 0,
        q == a * y / x,
    ensures
        q * (x + a) / (y + q) <= a,
{
    assert(q * x <= a * y) by (nonlinear_arith)
        requires
            x > 0,
            q == a * y / x,
    ;
    assert(q * (x + a) <= a * (y + q)) by (nonlinear_arith)
        requires
            q * x <= a * y,
    ;
    assert(q * (x + a) / (y + q) <= a) by (nonlinear_arith)
        requires
            y + q > 0,
            q * (x + a) <= a * (y + q),
    ;
}

/// What a successful stake does to the quote basis: both sides grow by what went in.
proof fn lemma_stake_basis(
    s: PoolState,
    t: PoolState,
    owner: ActorId,
    assets: nat,
    now: u64,
    minted: U256,
)
    requires
        s.solvent(now),
        s.quotable(),
        s.reserve@ + assets + s.virtual_assets() <= u256_max(),
        s.total_shares@ + minted@ + virtual_shares_nat() <= u256_max(),
        s.stake_post(&t, owner, assets, now, Ok(minted)),
    ensures
        s.basis_assets(now) > 0,
        s.basis_shares() > 0,
        minted@ == assets * s.basis_shares() / s.basis_assets(now),
        t.basis_assets(now) == s.basis_assets(now) + assets,
        t.basis_shares() == s.basis_shares() + minted@,
        t.base_rate == s.base_rate,
        t.total_shares@ == s.total_shares@ + minted@,
        t.virtual_assets() == s.virtual_assets(),
        t.distributable_at(now) == (if s.total_shares@ == 0 {
            0
        } else {
            s.distributable_at(now)
        }) + assets,
{
    lemma_basis_positive(s, now);
    lemma_distributable_exact(s, now);
    assert(t.locked(now) == s.locked(now));
    assert(t.virtual_assets() == s.virtual_assets());
    if s.total_shares@ == 0 {
        assert(t.distributable_at(now) == assets);
    } else {
        assert(t.distributable_at(now) == s.distributable_at(now) + assets);
    }
}

/// Staking `assets` and unstaking every share it minted in the same instant never returns more
/// than `assets` (before the instant fee). Left out: balances so close to 2^256 that the quote's
/// sums would saturate.
pub proof fn law_stake_then_unstake_never_profits(
    s: PoolState,
    t: PoolState,
    owner: ActorId,
    assets: nat,
    now: u64,
    minted: U256,
    back: nat,
)
    requires
        s.solvent(now),
        s.quotable(),
        s.reserve@ + assets + s.virtual_assets() <= u256_max(),
        s.total_shares@ + minted@ + virtual_shares_nat() <= u256_max(),
        s.stake_post(&t, owner, assets, now, Ok(minted)),
        t.assets_quote(minted@, now) == Some(back),
    ensures
        back <= assets,
{
    lemma_stake_basis(s, t, owner, assets, now, minted);
    lemma_buy_then_sell(assets, s.basis_assets(now), s.basis_shares(), minted@);
}

/// A price of `a2` over `t2` is no lower than `a1` over `t1`, rounded down at any scale, when
/// the cross products say so.
proof fn lemma_rate_not_lower(a1: nat, t1: nat, a2: nat, t2: nat, sc: nat)
    requires
        t1 > 0,
        t2 > 0,
        a2 * t1 >= a1 * t2,
    ensures
        a1 * sc / t1 <= a2 * sc / t2,
{
    let r = a1 * sc / t1;
    assert(r * t1 <= a1 * sc) by (nonlinear_arith)
        requires
            t1 > 0,
            r == a1 * sc / t1,
    ;
    assert(r * t1 * t2 <= a2 * sc * t1) by (nonlinear_arith)
        requires
            r * t1 <= a1 * sc,
            a2 * t1 >= a1 * t2,
    ;
    assert(r * t2 <= a2 * sc) by (nonlinear_arith)
        requires
            t1 > 0,
            r * t1 * t2 <= a2 * sc * t1,
    ;
    assert(r <= a2 * sc / t2) by (nonlinear_arith)
        requires
            t2 > 0,
            r * t2 <= a2 * sc,
    ;
}

/// Shares bought for `a` at a basis of `x` over `y`, rounded down, leave the basis priced no
/// lower.
proof fn lemma_buy_keeps_price(a: nat, x: nat, y: nat, q: nat)
    requires
        x > 0,
        y > 0,
        q == a * y / x,
    ensures
        (x + a) * y >= x * (y + q),
{
    assert(q * x <= a * y) by (nonlinear_arith)
        requires
            x > 0,
            q == a * y / x,
    ;
    assert((x + a) * y >= x * (y + q)) by (nonlinear_arith)
        requires
            q * x <= a * y,
    ;
}

/// Shares sold for `a` at a basis of `x` over `y`, rounded down, leave the basis priced no
/// lower.
proof fn lemma_sell_keeps_price(q: nat, x: nat, y: nat, a: nat)
    requires
        y > 0,
        a == q * x / y,
        a <= x,
        q <= y,
    ensures
        ((x - a) as nat) * y >= x * ((y - q) as nat),
{
    assert(a * y <= q * x) by (nonlinear_arith)
        requires
            y > 0,
            a == q * x / y,
    ;
    assert(((x - a) as nat) * y >= x * ((y - q) as nat)) by (nonlinear_arith)
        requires
            a * y <= q * x,
            a <= x,
            q <= y,
    ;
}

/// A stake never lowers the rate: the shares it mints are rounded down, in the pool's favour.
/// Left out: books so large that the quote's products saturate.
pub proof fn law_stake_never_lowers_rate(
    s: PoolState,
    t: PoolState,
    owner: ActorId,
    assets: nat,
    now: u64,
    minted: U256,
)
    requires
        s.solvent(now),
        s.quotable(),
        (s.reserve@ + assets + s.virtual_assets()) * scale_nat() <= u256_max(),
        s.total_shares@ + minted@ + virtual_shares_nat() <= u256_max(),
        s.stake_post(&t, owner, assets, now, Ok(minted)),
    ensures
        s.rate(now) <= t.rate(now),
        t.base_rate == s.base_rate,
{
    lemma_stake_basis(s, t, owner, assets, now, minted);
    let x = s.basis_assets(now);
    let y = s.basis_shares();
    lemma_buy_keeps_price(assets, x, y, minted@);
    assert(x <= s.reserve@ + s.virtual_assets());
    assert((x + assets) * scale_nat() <= u256_max()) by (nonlinear_arith)
        requires
            x + assets <= s.reserve@ + assets + s.virtual_assets(),
            (s.reserve@ + assets + s.virtual_assets()) * scale_nat() <= u256_max(),
    ;
    assert(x * scale_nat() <= (x + assets) * scale_nat()) by (nonlinear_arith);
    lemma_rate_not_lower(x, y, x + assets, y + minted@, scale_nat());
}

/// What an exit that burns `q` of the shares, but not the last, and takes `a` out of what is
/// distributable does to the quote basis.
proof fn lemma_exit_basis(s: PoolState, t: PoolState, q: nat, a: nat, now: u64)
    requires
        s.quotable(),
        s.total_shares@ + virtual_shares_nat() <= u256_max(),
        q < s.total_shares@,
        a <= s.distributable_at(now),
        t.total_shares@ == s.total_shares@ - q,
        t.base_rate == s.base_rate,
        t.distributable_at(now) == s.distributable_at(now) - a,
        s.distributable_at(now) + s.virtual_assets() <= u256_max(),
    ensures
        t.basis_assets(now) == s.basis_assets(now) - a,
        t.basis_shares() == s.basis_shares() - q,
        s.basis_assets(now) >= a,
{
}

/// An unstake that leaves shares outstanding never lowers the rate: its payout is rounded down,
/// in the pool's favour. Left out: books so large that the quote's products saturate; the
/// unstake of the last share is `law_last_unstake_keeps_rate`.
pub proof fn law_unstake_never_lowers_rate(
    s: PoolState,
    t: PoolState,
    owner: ActorId,
    shares: U256,
    now: u64,
    p: UnstakePreview,
)
    requires
        s.solvent(now),
        s.quotable(),
        (s.reserve@ + s.virtual_assets()) * scale_nat() <= u256_max(),
        s.total_shares@ + virtual_shares_nat() <= u256_max(),
        s.unstake_post(&t, owner, shares, now, Ok(p)),
        shares@ < s.total_shares@,
    ensures
        s.rate(now) <= t.rate(now),
        t.base_rate == s.base_rate,
{
    lemma_basis_positive(s, now);
    lemma_distributable_exact(s, now);
    let q = shares@;
    let a = p.assets@;
    let x = s.basis_assets(now);
    let y = s.basis_shares();
    assert(t.locked(now) == s.locked(now));
    assert(s.reserve@ + s.virtual_assets() <= u256_max()) by (nonlinear_arith)
        requires
            (s.reserve@ + s.virtual_assets()) * scale_nat() <= u256_max(),
    ;
    assert(t.distributable_at(now) == s.distributable_at(now) - a);
    lemma_exit_basis(s, t, q, a, now);
    assert(a == q * x / y);
    lemma_sell_keeps_price(q, x, y, a);
    assert(x * scale_nat() <= u256_max()) by (nonlinear_arith)
        requires
            x <= s.reserve@ + s.virtual_assets(),
            (s.reserve@ + s.virtual_assets()) * scale_nat() <= u256_max(),
    ;
    assert(((x - a) as nat) * scale_nat() <= x * scale_nat()) by (nonlinear_arith)
        requires
            a <= x,
    ;
    lemma_rate_not_lower(x, y, (x - a) as nat, (y - q) as nat, scale_nat());
}

/// An unbond that leaves shares outstanding never lowers the rate: the VARA it locks is
/// rounded down, in the pool's favour. Left out: books so large that the quote's products
/// saturate; the unbond of the last share is `law_last_unbond_keeps_rate`.
pub proof fn law_unbond_never_lowers_rate(
    s: PoolState,
    t: PoolState,
    owner: ActorId,
    shares: U256,
    now: u64,
    e: Unbond,
)
    requires
        s.solvent(now),
        s.quotable(),
        (s.reserve@ + s.virtual_assets()) * scale_nat() <= u256_max(),
        s.total_shares@ + virtual_shares_nat() <= u256_max(),
        s.unbond_post(&t, owner, shares, now, Ok(e)),
        shares@ < s.total_shares@,
    ensures
        s.rate(now) <= t.rate(now),
        t.base_rate == s.base_rate,
{
    lemma_basis_positive(s, now);
    lemma_distributable_exact(s, now);
    let q = shares@;
    let a = e.assets@;
    let x = s.basis_assets(now);
    let y = s.basis_shares();
    assert(t.locked(now) == s.locked(now));
    assert(s.reserve@ + s.virtual_assets() <= u256_max()) by (nonlinear_arith)
        requires
            (s.reserve@ + s.virtual_assets()) * scale_nat() <= u256_max(),
    ;
    assert(t.distributable_at(now) == s.distributable_at(now) - a);
    lemma_exit_basis(s, t, q, a, now);
    assert(a == q * x / y);
    lemma_sell_keeps_price(q, x, y, a);
    assert(x * scale_nat() <= u256_max()) by (nonlinear_arith)
        requires
            x <= s.reserve@ + s.virtual_assets(),
            (s.reserve@ + s.virtual_assets()) * scale_nat() <= u256_max(),
    ;
    assert(((x - a) as nat) * scale_nat() <= x * scale_nat()) by (nonlinear_arith)
        requires
            a <= x,
    ;
    lemma_rate_not_lower(x, y, (x - a) as nat, (y - q) as nat, scale_nat());
}

/// Entering and leaving in the same instant earns nothing and costs the other holders
/// nothing: a visitor who stakes `assets` and unstakes every share it minted gets back at most
/// `assets` (before the fee), holds no share afterwards, and leaves the supply as it was and
/// what is distributable and the rate no lower. Left out: an empty pool (the stake first
/// sweeps what belongs to nobody) and books so large that the quote's products saturate.
pub proof fn law_same_instant_round_trip_earns_nothing(
    s: PoolState,
    t: PoolState,
    v: PoolState,
    visitor: ActorId,
    assets: nat,
    now: u64,
    minted: U256,
    out: UnstakePreview,
)
    requires
        s.solvent(now),
        s.quotable(),
        s.total_shares@ != 0,
        s.balance(visitor) == 0,
        (s.reserve@ + assets + s.virtual_assets()) * scale_nat() <= u256_max(),
        s.total_shares@ + minted@ + virtual_shares_nat() <= u256_max(),
        s.stake_post(&t, visitor, assets, now, Ok(minted)),
        t.unstake_post(&v, visitor, minted, now, Ok(out)),
    ensures
        out.assets@ <= assets,
        v.balance(visitor) == 0,
        v.total_shares@ == s.total_shares@,
        v.distributable_at(now) >= s.distributable_at(now),
        v.rate(now) >= s.rate(now),
{
    let q = minted@;
    assert(s.reserve@ + assets + s.virtual_assets() <= u256_max()) by (nonlinear_arith)
        requires
            (s.reserve@ + assets + s.virtual_assets()) * scale_nat() <= u256_max(),
    ;
    lemma_stake_basis(s, t, visitor, assets, now, minted);
    law_stake_keeps_solvent(s, t, visitor, assets, now, Ok(minted));
    law_stake_never_lowers_rate(s, t, visitor, assets, now, minted);
    assert(t.balance(visitor) == q);
    assert(t.assets_quote(q, now) == Some(out.assets@));
    law_stake_then_unstake_never_profits(s, t, visitor, assets, now, minted, out.assets@);
    assert(t.reserve@ == s.reserve@ + assets);
    assert(t.virtual_assets() == s.virtual_assets());
    assert(t.quotable());
    assert((t.reserve@ + t.virtual_assets()) * scale_nat() <= u256_max());
    law_unstake_never_lowers_rate(t, v, visitor, minted, now, out);
    lemma_distributable_exact(t, now);
    assert(t.locked(now) == s.locked(now));
    assert(v.locked(now) == t.locked(now));
    assert(t.distributable_at(now) == s.distributable_at(now) + assets);
    let mt = amounts(t.balances@);
    assert(t.burned(&v, visitor, q, now));
    assert(amount_of(mt, visitor.key()) == q);
    assert(amount_of(debited(mt, visitor.key(), q), visitor.key()) == 0);
}

/// Time never lowers the rate: what is distributable only grows as rewards vest.
pub proof fn law_rate_never_falls_with_time(s: PoolState, t1: u64, t2: u64)
    requires
        t1 <= t2,
    ensures
        s.rate(t1) <= s.rate(t2),
{
    lemma_locked_nonincreasing(s.vest_amount@, s.vest_start_ms, s.vest_end_ms, t1, t2);
    assert(s.distributable_at(t1) <= s.distributable_at(t2));
    assert(s.basis_assets(t1) <= s.basis_assets(t2));
    lemma_sat_mul_le(s.basis_assets(t1), s.basis_assets(t2), scale_nat());
    lemma_div_is_ordered(
        sat_mul(s.basis_assets(t1), scale_nat()) as int,
        sat_mul(s.basis_assets(t2), scale_nat()) as int,
        s.basis_shares() as int,
    );
}

/// An empty pool quotes its `base_rate`, rounded up by less than a millionth of a unit: never
/// below it.
pub proof fn law_empty_pool_quotes_base_rate(s: PoolState, now: u64)
    requires
        s.quotable(),
        s.total_shares@ == 0,
    ensures
        s.base_rate@ <= s.rate(now),
        s.rate(now) < s.base_rate@ + scale_nat() / virtual_shares_nat(),
{
    let br = s.base_rate@;
    let v = virtual_shares_nat();
    let sc = scale_nat();
    let va = s.virtual_assets();
    assert(sat_mul(v, br) == v * br);
    assert(va == ((v * br + sc - 1) as nat) / sc);
    assert(va * sc >= v * br && va * sc < v * br + sc) by (nonlinear_arith)
        requires
            va == ((v * br + sc - 1) as nat) / sc,
            sc > 0,
    ;
    assert(s.basis_assets(now) == va);
    assert(s.basis_shares() == v);
    assert(sat_mul(va, sc) == va * sc);
    assert(br <= va * sc / v && va * sc / v < br + sc / v) by (nonlinear_arith)
        requires
            va * sc >= v * br,
            va * sc < v * br + sc,
            v == 1_000_000,
            sc == 1_000_000_000_000_000_000,
    ;
}

/// The unstake that burns the last share leaves the pool quoting, at every later instant, the
/// rate it had before, rounded up by less than a millionth of a unit. Left out: a rate below
/// 1.0, which the pool does not keep, and a kept rate too large to quote.
pub proof fn law_last_unstake_keeps_rate(
    s: PoolState,
    t: PoolState,
    owner: ActorId,
    shares: U256,
    now: u64,
    p: UnstakePreview,
    later: u64,
)
    requires
        s.unstake_post(&t, owner, shares, now, Ok(p)),
        shares@ == s.total_shares@,
        s.rate(now) >= scale_nat(),
        t.quotable(),
    ensures
        s.rate(now) <= t.rate(later),
        t.rate(later) < s.rate(now) + scale_nat() / virtual_shares_nat(),
{
    assert(t.total_shares@ == 0);
    assert(t.base_rate@ == s.rate(now));
    law_empty_pool_quotes_base_rate(t, later);
}

/// The unbond that burns the last share leaves the pool quoting, at every later instant, the
/// rate it had before, rounded up by less than a millionth of a unit. Left out: a rate below
/// 1.0, which the pool does not keep, and a kept rate too large to quote.
pub proof fn law_last_unbond_keeps_rate(
    s: PoolState,
    t: PoolState,
    owner: ActorId,
    shares: U256,
    now: u64,
    e: Unbond,
    later: u64,
)
    requires
        s.unbond_post(&t, owner, shares, now, Ok(e)),
        shares@ == s.total_shares@,
        s.rate(now) >= scale_nat(),
        t.quotable(),
    ensures
        s.rate(now) <= t.rate(later),
        t.rate(later) < s.rate(now) + scale_nat() / virtual_shares_nat(),
{
    assert(t.total_shares@ == 0);
    assert(t.base_rate@ == s.rate(now));
    law_empty_pool_quotes_base_rate(t, later);
}

proof fn lemma_sat_mul_le(x: nat, y: nat, k: nat)
    requires
        x <= y,
    ensures
        sat_mul(x, k) <= sat_mul(y, k),
{
    lemma_mul_inequality(x as int, y as int, k as int);
}

/// A transfer of shares moves no asset and no share in or out: the rate and the backing stay
/// where they were.
pub proof fn law_transfer_keeps_rate(
    s: PoolState,
    t: PoolState,
    from: ActorId,
    to: ActorId,
    value: nat,
    r: Result<(), PoolError>,
    now: u64,
)
    requires
        s.transfer_post(&t, from, to, value, r),
    ensures
        t.rate(now) == s.rate(now),
        t.backed(now) == s.backed(now),
{
}

/// Collecting the fees takes from the reserve exactly what the fee bucket held: the rate and
/// the backing stay where they were.
pub proof fn law_collect_keeps_rate(
    s: PoolState,
    t: PoolState,
    caller: ActorId,
    to: ActorId,
    r: Result<U256, PoolError>,
    now: u64,
)
    requires
        s.collect_post(&t, caller, to, r),
    ensures
        t.rate(now) == s.rate(now),
        t.backed(now) == s.backed(now),
{
    assert(t.locked(now) == s.locked(now));
}

// --- backing: nothing is promised that is not there ----------------------------------------

impl PoolState {
    /// Every outstanding share is backed by at least what a virtual share is priced at, so the
    /// holders' part of a quote never borrows from the virtual pair.
    pub open spec fn backed(&self, now: u64) -> bool {
        self.total_shares@ * self.virtual_assets() <= self.distributable_at(now)
            * virtual_shares_nat()
    }

    /// What each holder's shares are worth at `now`, priced as `assets_for` prices them.
    pub open spec fn claims(&self, now: u64) -> Map<Key, nat> {
        priced(amounts(self.balances@), self.basis_assets(now), self.basis_shares())
    }
}

/// On a backed pool, what every holder could take out at `now` sums to at most what is
/// distributable: nothing is promised that is not there. Left out: books so large that the
/// quote's sums saturate.
pub proof fn law_nothing_over_promised(s: PoolState, now: u64)
    requires
        s.shares_consistent(),
        s.backed(now),
        s.total_shares@ + virtual_shares_nat() <= u256_max(),
        s.distributable_at(now) + s.virtual_assets() <= u256_max(),
    ensures
        total(s.claims(now)) <= s.distributable_at(now),
{
    let m = amounts(s.balances@);
    assert(m.dom() == s.balances@.dom());
    let x = s.basis_assets(now);
    let y = s.basis_shares();
    let ts = s.total_shares@;
    let d = s.distributable_at(now);
    let va = s.virtual_assets();
    let vs = virtual_shares_nat();
    lemma_total_priced(m, x, y);
    if ts == 0 {
        assert(ts * x / y == 0);
    } else {
        assert(x == d + va);
        assert(y == ts + vs);
        assert(ts * x / y <= d) by (nonlinear_arith)
            requires
                ts * va <= d * vs,
                x == d + va,
                y == ts + vs,
                vs > 0,
        ;
    }
}

/// A backed pool never quotes below its `base_rate`. Left out: books so large that the
/// quote's products saturate.
pub proof fn law_backed_rate_at_least_base(s: PoolState, now: u64)
    requires
        s.backed(now),
        s.quotable(),
        s.total_shares@ + virtual_shares_nat() <= u256_max(),
        (s.distributable_at(now) + s.virtual_assets()) * scale_nat() <= u256_max(),
    ensures
        s.base_rate@ <= s.rate(now),
{
    if s.total_shares@ == 0 {
        law_empty_pool_quotes_base_rate(s, now);
    } else {
        let br = s.base_rate@;
        let vs = virtual_shares_nat();
        let sc = scale_nat();
        let va = s.virtual_assets();
        let d = s.distributable_at(now);
        let ts = s.total_shares@;
        assert(sat_mul(vs, br) == vs * br);
        assert(va == ((vs * br + sc - 1) as nat) / sc);
        assert(va * sc >= vs * br) by (nonlinear_arith)
            requires
                va == ((vs * br + sc - 1) as nat) / sc,
                sc > 0,
        ;
        assert(s.basis_assets(now) == d + va);
        assert(s.basis_shares() == ts + vs);
        assert(d + va <= (d + va) * sc) by (nonlinear_arith)
            requires
                sc > 0,
        ;
        assert(sat_mul(d + va, sc) == (d + va) * sc);
        assert((d + va) * vs >= (ts + vs) * va) by (nonlinear_arith)
            requires
                ts * va <= d * vs,
        ;
        assert((d + va) * sc * vs >= (ts + vs) * vs * br) by (nonlinear_arith)
            requires
                (d + va) * vs >= (ts + vs) * va,
                va * sc >= vs * br,
        ;
        assert((d + va) * sc >= (ts + vs) * br) by (nonlinear_arith)
            requires
                vs > 0,
                (d + va) * sc * vs >= (ts + vs) * vs * br,
        ;
        assert(br <= (d + va) * sc / (ts + vs)) by (nonlinear_arith)
            requires
                ts + vs > 0,
                (d + va) * sc >= (ts + vs) * br,
        ;
    }
}

/// One operation on the pool, with its arguments and its result.
#[allow(inconsistent_fields)]
pub enum PoolStep {
    Transfer { from: ActorId, to: ActorId, value: U256, r: Result<(), PoolError> },
    Stake { owner: ActorId, assets: U256, now: u64, r: Result<U256, PoolError> },
    Unstake { owner: ActorId, shares: U256, now: u64, r: Result<UnstakePreview, PoolError> },
    RevertUnstake { owner: ActorId, shares: U256, fee: U256, net: U256 },
    Fund { assets: U256, now: u64, r: Result<(), PoolError> },
    Unbond { owner: ActorId, shares: U256, now: u64, r: Result<Unbond, PoolError> },
    Take { owner: ActorId, id: u64, now: u64, r: Result<Unbond, PoolError> },
    Restore { owner: ActorId, entry: Unbond },
    CollectFees { caller: ActorId, to: ActorId, r: Result<U256, PoolError> },
    SettleFees { amount: U256, payout: Result<(), PoolError>, r: Result<U256, PoolError> },
    Accept { key: ActorId, owner: ActorId, now: u64, r: Result<Session, PoolError> },
    Revoke { owner: ActorId, r: bool },
}

impl PoolState {
    /// `new` is `self` after `step`.
    pub open spec fn step_post(&self, new: &PoolState, step: PoolStep) -> bool {
        match step {
            PoolStep::Transfer { from, to, value, r } => self.transfer_post(new, from, to, value@, r),
            PoolStep::Stake { owner, assets, now, r } => self.stake_post(new, owner, assets@, now, r),
            PoolStep::Unstake { owner, shares, now, r } => self.unstake_post(new, owner, shares, now, r),
            PoolStep::RevertUnstake { owner, shares, fee, net } => self.revert_post(new, owner, shares@, fee@, net@),
            PoolStep::Fund { assets, now, r } => self.fund_post(new, assets@, now, r),
            PoolStep::Unbond { owner, shares, now, r } => self.unbond_post(new, owner, shares, now, r),
            PoolStep::Take { owner, id, now, r } => self.take_post(new, owner, id, now, r),
            PoolStep::Restore { owner, entry } => self.restore_post(new, owner, entry),
            PoolStep::CollectFees { caller, to, r } => self.collect_post(new, caller, to, r),
            PoolStep::SettleFees { amount, payout, r } => self.settle_fees_post(new, amount, payout, r),
            PoolStep::Accept { key, owner, now, r } => self.accept_post(new, key, owner, now, r),
            PoolStep::Revoke { owner, r } => self.revoke_post(new, owner, r),
        }
    }
}

/// Every operation keeps the base rate at 1.0 or above: only burning the last share moves it,
/// and then only to a rate of at least 1.0. (The remaining commands, configuration, pausing,
/// allowances and proposals, leave the base rate as it is in their own `ensures`.)
pub proof fn law_every_step_keeps_base_rate(s: PoolState, t: PoolState, step: PoolStep)
    requires
        s.base_rate@ >= scale_nat(),
        s.step_post(&t, step),
    ensures
        t.base_rate@ >= scale_nat(),
{
}

/// Time never unbacks the pool: what is distributable only grows.
pub proof fn law_backed_later(s: PoolState, t1: u64, t2: u64)
    requires
        s.backed(t1),
        t1 <= t2,
    ensures
        s.backed(t2),
{
    lemma_locked_nonincreasing(s.vest_amount@, s.vest_start_ms, s.vest_end_ms, t1, t2);
    assert(s.distributable_at(t1) <= s.distributable_at(t2));
    assert(s.distributable_at(t1) * virtual_shares_nat() <= s.distributable_at(t2)
        * virtual_shares_nat()) by (nonlinear_arith)
        requires
            s.distributable_at(t1) <= s.distributable_at(t2),
    ;
}

/// Shares bought at the basis `d + va` over `ts + vs`, rounded down, are backed at least as
/// well as a virtual share.
proof fn lemma_buy_keeps_backed(d: nat, ts: nat, va: nat, vs: nat, a: nat, q: nat)
    requires
        ts * va <= d * vs,
        d + va > 0,
        q == a * (ts + vs) / (d + va),
    ensures
        (ts + q) * va <= (d + a) * vs,
{
    let x = d + va;
    let y = ts + vs;
    assert(q * x <= a * y) by (nonlinear_arith)
        requires
            x > 0,
            q == a * y / x,
    ;
    assert(y * va <= x * vs) by (nonlinear_arith)
        requires
            ts * va <= d * vs,
            x == d + va,
            y == ts + vs,
    ;
    assert(q * va * x <= a * vs * x) by (nonlinear_arith)
        requires
            q * x <= a * y,
            y * va <= x * vs,
    ;
    assert(q * va <= a * vs) by (nonlinear_arith)
        requires
            x > 0,
            q * va * x <= a * vs * x,
    ;
    assert((ts + q) * va <= (d + a) * vs) by (nonlinear_arith)
        requires
            ts * va <= d * vs,
            q * va <= a * vs,
    ;
}

/// Shares sold at the basis `d + va` over `ts + vs`, rounded down, leave the rest backed at
/// least as well as a virtual share.
proof fn lemma_sell_keeps_backed(d: nat, ts: nat, va: nat, vs: nat, q: nat, a: nat)
    requires
        ts * va <= d * vs,
        vs > 0,
        q <= ts,
        a <= d,
        a == q * (d + va) / (ts + vs),
    ensures
        ((ts - q) as nat) * va <= ((d - a) as nat) * vs,
{
    let x = d + va;
    let y = ts + vs;
    let e = d * vs - ts * va;
    assert(a * y <= q * x) by (nonlinear_arith)
        requires
            y > 0,
            a == q * x / y,
    ;
    assert(x * vs - va * y == e) by (nonlinear_arith)
        requires
            x == d + va,
            y == ts + vs,
            e == d * vs - ts * va,
    ;
    assert(e * y >= q * e) by (nonlinear_arith)
        requires
            e >= 0,
            q <= ts,
            y == ts + vs,
    ;
    let da = d - a;
    let tq = ts - q;
    assert(a * y * vs <= q * x * vs) by (nonlinear_arith)
        requires
            a * y <= q * x,
    ;
    assert(da * vs * y == d * vs * y - a * y * vs) by (nonlinear_arith)
        requires
            da == d - a,
    ;
    assert(tq * va * y == ts * va * y - q * va * y) by (nonlinear_arith)
        requires
            tq == ts - q,
    ;
    assert(q * x * vs - q * va * y == q * e) by (nonlinear_arith)
        requires
            x * vs - va * y == e,
    ;
    assert(d * vs * y - ts * va * y == e * y) by (nonlinear_arith)
        requires
            e == d * vs - ts * va,
    ;
    assert(da * vs * y >= tq * va * y);
    assert(((d - a) as nat) * vs * y >= ((ts - q) as nat) * va * y);
    assert(((ts - q) as nat) * va <= ((d - a) as nat) * vs) by (nonlinear_arith)
        requires
            y > 0,
            ((d - a) as nat) * vs * y >= ((ts - q) as nat) * va * y,
    ;
}

/// A stake keeps the pool backed: the shares it mints are priced at the basis, which is at
/// least what a virtual share is worth. Left out: balances so close to 2^256 that the quote's
/// sums would saturate.
pub proof fn law_stake_keeps_backed(
    s: PoolState,
    t: PoolState,
    owner: ActorId,
    assets: nat,
    now: u64,
    minted: U256,
)
    requires
        s.solvent(now),
        s.backed(now),
        s.quotable(),
        s.reserve@ + assets + s.virtual_assets() <= u256_max(),
        s.total_shares@ + minted@ + virtual_shares_nat() <= u256_max(),
        s.stake_post(&t, owner, assets, now, Ok(minted)),
    ensures
        t.backed(now),
{
    lemma_stake_basis(s, t, owner, assets, now, minted);
    let d0 = if s.total_shares@ == 0 { 0 } else { s.distributable_at(now) };
    assert(s.basis_assets(now) == d0 + s.virtual_assets());
    assert(s.total_shares@ * s.virtual_assets() <= d0 * virtual_shares_nat());
    lemma_buy_keeps_backed(
        d0,
        s.total_shares@,
        s.virtual_assets(),
        virtual_shares_nat(),
        assets,
        minted@,
    );
}

/// An unstake keeps the pool backed: its payout is priced at the basis, rounded down. Left out:
/// books so large that the quote's sums saturate.
pub proof fn law_unstake_keeps_backed(
    s: PoolState,
    t: PoolState,
    owner: ActorId,
    shares: U256,
    now: u64,
    p: UnstakePreview,
)
    requires
        s.solvent(now),
        s.backed(now),
        s.reserve@ + s.virtual_assets() <= u256_max(),
        s.total_shares@ + virtual_shares_nat() <= u256_max(),
        s.unstake_post(&t, owner, shares, now, Ok(p)),
    ensures
        t.backed(now),
{
    lemma_distributable_exact(s, now);
    assert(t.locked(now) == s.locked(now));
    if shares@ < s.total_shares@ {
        let d = s.distributable_at(now);
        assert(t.distributable_at(now) == d - p.assets@);
        assert(s.basis_assets(now) == d + s.virtual_assets());
        assert(s.basis_shares() == s.total_shares@ + virtual_shares_nat());
        assert(p.assets@ == shares@ * s.basis_assets(now) / s.basis_shares());
        assert(t.total_shares@ == s.total_shares@ - shares@);
        assert(t.virtual_assets() == s.virtual_assets());
        assert(p.assets@ <= d);
        lemma_sell_keeps_backed(
            d,
            s.total_shares@,
            s.virtual_assets(),
            virtual_shares_nat(),
            shares@,
            p.assets@,
        );
    } else {
        let left = t.total_shares@;
        let va = t.virtual_assets();
        assert(left == 0);
        assert(left * va == 0) by (nonlinear_arith)
            requires
                left == 0,
        ;
    }
}

/// An unbond keeps the pool backed: the VARA it locks is priced at the basis, rounded down.
/// Left out: books so large that the quote's sums saturate.
pub proof fn law_unbond_keeps_backed(
    s: PoolState,
    t: PoolState,
    owner: ActorId,
    shares: U256,
    now: u64,
    e: Unbond,
)
    requires
        s.solvent(now),
        s.backed(now),
        s.reserve@ + s.virtual_assets() <= u256_max(),
        s.total_shares@ + virtual_shares_nat() <= u256_max(),
        s.unbond_post(&t, owner, shares, now, Ok(e)),
    ensures
        t.backed(now),
{
    lemma_distributable_exact(s, now);
    assert(t.locked(now) == s.locked(now));
    if shares@ < s.total_shares@ {
        let d = s.distributable_at(now);
        assert(t.distributable_at(now) == d - e.assets@);
        assert(s.basis_assets(now) == d + s.virtual_assets());
        lemma_sell_keeps_backed(
            d,
            s.total_shares@,
            s.virtual_assets(),
            virtual_shares_nat(),
            shares@,
            e.assets@,
        );
    } else {
        let left = t.total_shares@;
        let va = t.virtual_assets();
        assert(left == 0);
        assert(left * va == 0) by (nonlinear_arith)
            requires
                left == 0,
        ;
    }
}

// --- nobody else is diluted ------------------------------------------------------------------

/// A stake dilutes nobody: every other holder's claim is worth at least what it was. Left out:
/// balances so close to 2^256 that the quote's sums would saturate.
pub proof fn law_stake_dilutes_nobody(
    s: PoolState,
    t: PoolState,
    owner: ActorId,
    assets: nat,
    now: u64,
    minted: U256,
    other: Key,
)
    requires
        s.solvent(now),
        s.quotable(),
        s.reserve@ + assets + s.virtual_assets() <= u256_max(),
        s.total_shares@ + minted@ + virtual_shares_nat() <= u256_max(),
        s.stake_post(&t, owner, assets, now, Ok(minted)),
        other != owner.key(),
    ensures
        amount_of(s.claims(now), other) <= amount_of(t.claims(now), other),
{
    lemma_stake_basis(s, t, owner, assets, now, minted);
    let x = s.basis_assets(now);
    let y = s.basis_shares();
    lemma_buy_keeps_price(assets, x, y, minted@);
    lemma_priced_not_lower(
        amounts(s.balances@),
        amounts(t.balances@),
        other,
        x,
        y,
        x + assets,
        y + minted@,
    );
}

/// An exit by `owner` that burns `q` shares and takes `a` out of what is distributable, priced
/// at the basis, dilutes nobody else.
proof fn lemma_exit_dilutes_nobody(s: PoolState, t: PoolState, owner: ActorId, q: nat, a: nat, now: u64, other: Key)
    requires
        s.shares_consistent(),
        s.quotable(),
        s.distributable_at(now) + s.virtual_assets() <= u256_max(),
        s.total_shares@ + virtual_shares_nat() <= u256_max(),
        q > 0,
        q <= s.balance(owner),
        q <= s.total_shares@,
        a <= s.distributable_at(now),
        a == q * s.basis_assets(now) / s.basis_shares(),
        amounts(t.balances@) == debited(amounts(s.balances@), owner.key(), q),
        t.total_shares@ == s.total_shares@ - q,
        q < s.total_shares@ ==> t.base_rate == s.base_rate,
        t.distributable_at(now) == s.distributable_at(now) - a,
        other != owner.key(),
    ensures
        amount_of(s.claims(now), other) <= amount_of(t.claims(now), other),
{
    let m = amounts(s.balances@);
    assert(m.dom() == s.balances@.dom());
    lemma_basis_positive(s, now);
    if q < s.total_shares@ {
        let x = s.basis_assets(now);
        let y = s.basis_shares();
        assert(x == s.distributable_at(now) + s.virtual_assets());
        lemma_exit_basis(s, t, q, a, now);
        lemma_sell_keeps_price(q, x, y, a);
        lemma_priced_not_lower(
            m,
            amounts(t.balances@),
            other,
            x,
            y,
            (x - a) as nat,
            (y - q) as nat,
        );
    } else {
        lemma_two_amounts_le_total(m, owner.key(), other);
        assert(amount_of(m, other) == 0);
        let b = amount_of(m, other);
        assert(b * s.basis_assets(now) / s.basis_shares() == 0) by (nonlinear_arith)
            requires
                b == 0,
                s.basis_shares() > 0,
        ;
    }
}

/// An unstake dilutes nobody: every other holder's claim is worth at least what it was. Left
/// out: books so large that the quote's sums saturate.
pub proof fn law_unstake_dilutes_nobody(
    s: PoolState,
    t: PoolState,
    owner: ActorId,
    shares: U256,
    now: u64,
    p: UnstakePreview,
    other: Key,
)
    requires
        s.solvent(now),
        s.shares_consistent(),
        s.quotable(),
        s.reserve@ + s.virtual_assets() <= u256_max(),
        s.total_shares@ + virtual_shares_nat() <= u256_max(),
        s.unstake_post(&t, owner, shares, now, Ok(p)),
        other != owner.key(),
    ensures
        amount_of(s.claims(now), other) <= amount_of(t.claims(now), other),
{
    lemma_distributable_exact(s, now);
    assert(t.locked(now) == s.locked(now));
    assert(t.distributable_at(now) == s.distributable_at(now) - p.assets@);
    lemma_exit_dilutes_nobody(s, t, owner, shares@, p.assets@, now, other);
}

/// An unbond dilutes nobody: every other holder's claim is worth at least what it was. Left
/// out: books so large that the quote's sums saturate.
pub proof fn law_unbond_dilutes_nobody(
    s: PoolState,
    t: PoolState,
    owner: ActorId,
    shares: U256,
    now: u64,
    e: Unbond,
    other: Key,
)
    requires
        s.solvent(now),
        s.shares_consistent(),
        s.quotable(),
        s.reserve@ + s.virtual_assets() <= u256_max(),
        s.total_shares@ + virtual_shares_nat() <= u256_max(),
        s.unbond_post(&t, owner, shares, now, Ok(e)),
        other != owner.key(),
    ensures
        amount_of(s.claims(now), other) <= amount_of(t.claims(now), other),
{
    lemma_distributable_exact(s, now);
    assert(t.locked(now) == s.locked(now));
    assert(t.distributable_at(now) == s.distributable_at(now) - e.assets@);
    lemma_exit_dilutes_nobody(s, t, owner, shares@, e.assets@, now, other);
}

// --- sessions ---------------------------------------------------------------------------------

impl PoolState {
    /// `sessions` and `session_keys` are inverses: the key of every active session maps back to
    /// its owner, and every bound key is the key of the active session of the owner it maps to.
    /// So a key serves one owner.
    pub open spec fn sessions_consistent(&self) -> bool {
        let sv = session_views(self.sessions@);
        let ks = self.session_keys@;
        &&& forall|o: Key| #[trigger]
            sv.contains_key(o) ==> ks.contains_key(sv[o].0.key()) && ks[sv[o].0.key()].key() == o
        &&& forall|k: Key| #[trigger]
            ks.contains_key(k) ==> sv.contains_key(ks[k].key()) && sv[ks[k].key()].0.key() == k
    }
}

/// Accepting a session keeps `sessions` and `session_keys` inverses of each other.
pub proof fn law_accept_keeps_sessions(
    s: PoolState,
    t: PoolState,
    key: ActorId,
    owner: ActorId,
    now: u64,
    r: Result<Session, PoolError>,
)
    requires
        s.sessions_consistent(),
        s.accept_post(&t, key, owner, now, r),
    ensures
        t.sessions_consistent(),
{
    if r is Ok {
        let p = s.pending_sessions@[owner.key()];
        let sv = session_views(s.sessions@);
        let ks = s.session_keys@;
        let k1 = s.keys_after_drop(owner);
        let sv2 = session_views(t.sessions@);
        let ks2 = t.session_keys@;
        assert(p@.0 == key);
        assert forall|o: Key| #[trigger] sv2.contains_key(o) implies ks2.contains_key(
            sv2[o].0.key(),
        ) && ks2[sv2[o].0.key()].key() == o by {
            if o != owner.key() {
                assert(sv.contains_key(o));
                let ko = sv[o].0.key();
                assert(ks[ko].key() == o);
                if sv.contains_key(owner.key()) {
                    assert(ks[sv[owner.key()].0.key()].key() == owner.key());
                    assert(ko != sv[owner.key()].0.key());
                }
                assert(k1.contains_key(ko) && k1[ko].key() == o);
                if ko == key.key() {
                    assert(k1[key.key()].key() == o);
                    lemma_key_injective(k1[key.key()], owner);
                }
            }
        }
        assert forall|k: Key| #[trigger] ks2.contains_key(k) implies sv2.contains_key(
            ks2[k].key(),
        ) && sv2[ks2[k].key()].0.key() == k by {
            if k != key.key() {
                assert(k1.contains_key(k));
                assert(ks.contains_key(k));
                let o = ks[k].key();
                assert(sv.contains_key(o) && sv[o].0.key() == k);
                if o == owner.key() {
                    assert(!k1.contains_key(sv[owner.key()].0.key()));
                }
                lemma_key_injective(ks[k], owner);
                if k1.contains_key(key.key()) && k1[key.key()] != owner {
                    let other = k1[key.key()].key();
                    assert(sv[other].0.key() == key.key());
                }
            }
        }
    }
}

/// Revoking a session keeps `sessions` and `session_keys` inverses of each other.
pub proof fn law_revoke_keeps_sessions(s: PoolState, t: PoolState, owner: ActorId, r: bool)
    requires
        s.sessions_consistent(),
        s.revoke_post(&t, owner, r),
    ensures
        t.sessions_consistent(),
{
    let sv = session_views(s.sessions@);
    let ks = s.session_keys@;
    let sv2 = session_views(t.sessions@);
    let ks2 = t.session_keys@;
    assert forall|o: Key| #[trigger] sv2.contains_key(o) implies ks2.contains_key(
        sv2[o].0.key(),
    ) && ks2[sv2[o].0.key()].key() == o by {
        if sv.contains_key(owner.key()) {
            assert(ks[sv[owner.key()].0.key()].key() == owner.key());
        }
    }
    assert forall|k: Key| #[trigger] ks2.contains_key(k) implies sv2.contains_key(ks2[k].key())
        && sv2[ks2[k].key()].0.key() == k by {
        assert(ks.contains_key(k));
        if ks[k].key() == owner.key() {
            assert(sv[owner.key()].0.key() == k);
        }
    }
}

// --- unbonds: the total locked is what the entries owe ---------------------------------------

impl PoolState {
    /// `unbonding_total` is the sum of the assets of every entry; each owner's entries are
    /// non-empty, strictly ordered by id, and below the next id.
    pub open spec fn unbonds_consistent(&self) -> bool {
        &&& book_ok(lists(self.unbonds@), self.next_unbond_id)
        &&& self.unbonding_total@ == total(owed(lists(self.unbonds@)))
    }
}

/// A timed exit records an entry whose assets are added to the total locked, under the next
/// id.
pub proof fn law_unbond_keeps_book(
    s: PoolState,
    t: PoolState,
    owner: ActorId,
    shares: U256,
    now: u64,
    r: Result<Unbond, PoolError>,
)
    requires
        s.unbonds_consistent(),
        s.unbond_post(&t, owner, shares, now, r),
    ensures
        t.unbonds_consistent(),
{
    if r is Ok {
        let e = r->Ok_0;
        let m = lists(s.unbonds@);
        let l = list_of(m, owner.key());
        let m2 = lists(t.unbonds@);
        lemma_assets_push(l, e);
        assert(owed(m).dom() == m.dom());
        lemma_total_insert(owed(m), owner.key(), assets_of(l.push(e)));
        assert(owed(m2) =~= owed(m).insert(owner.key(), assets_of(l.push(e))));
        assert(amount_of(owed(m), owner.key()) == assets_of(l));
        assert forall|k: Key| #[trigger] m2.contains_key(k) implies {
            &&& m2[k].len() > 0
            &&& ids_ascending(m2[k])
            &&& forall|i: int| 0 <= i < m2[k].len() ==> #[trigger] m2[k][i].id < t.next_unbond_id
        } by {
            if k == owner.key() {
                assert forall|i: int, j: int| 0 <= i < j < m2[k].len() implies m2[k][i].id
                    < m2[k][j].id by {
                    if j == l.len() {
                        assert(m2[k][i] == l[i]);
                    }
                }
            }
        }
    }
}

/// Taking an entry for its claim removes exactly its assets from the total locked.
pub proof fn law_take_keeps_book(
    s: PoolState,
    t: PoolState,
    owner: ActorId,
    id: u64,
    now: u64,
    r: Result<Unbond, PoolError>,
)
    requires
        s.unbonds_consistent(),
        s.take_post(&t, owner, id, now, r),
    ensures
        t.unbonds_consistent(),
{
    let m = lists(s.unbonds@);
    let l = list_of(m, owner.key());
    if !s.paused && has_id(l, id) {
        let i = lemma_first_position(l, id);
        let e = l[i];
        assert(m.contains_key(owner.key()));
        lemma_assets_remove(l, i);
        assert(owed(m).dom() == m.dom());
        lemma_amount_le_total(owed(m), owner.key());
        let m2 = lists(t.unbonds@);
        if r is Ok && l.len() == 1 {
            assert(l.remove(i).len() == 0);
            lemma_total_remove(owed(m), owner.key());
            assert(owed(m2) =~= owed(m).remove(owner.key()));
        } else if r is Ok {
            lemma_total_insert(owed(m), owner.key(), assets_of(l.remove(i)));
            assert(owed(m2) =~= owed(m).insert(owner.key(), assets_of(l.remove(i))));
            assert forall|k: Key| #[trigger] m2.contains_key(k) implies {
                &&& m2[k].len() > 0
                &&& ids_ascending(m2[k])
                &&& forall|x: int| 0 <= x < m2[k].len() ==> #[trigger] m2[k][x].id
                    < t.next_unbond_id
            } by {
                if k == owner.key() {
                    let l2 = l.remove(i);
                    assert forall|x: int| 0 <= x < l2.len() implies #[trigger] l2[x] == (if x < i {
                        l[x]
                    } else {
                        l[x + 1]
                    }) by {}
                }
            }
        }
    }
}

/// The position of the entry with `id` in a strictly ordered list that holds one.
proof fn lemma_first_position(l: Seq<Unbond>, id: u64) -> (i: int)
    requires
        ids_ascending(l),
        has_id(l, id),
    ensures
        first_with(l, id, i),
{
    let i = choose|i: int| 0 <= i < l.len() && l[i].id == id;
    assert forall|j: int| 0 <= j < i implies l[j].id != id by {
        assert(l[j].id < l[i].id);
    }
    i
}

/// Taking an entry for its claim keeps the pool solvent, and its rate and backing where they
/// were: it pays VARA that was locked for it.
pub proof fn law_take_keeps_solvent(
    s: PoolState,
    t: PoolState,
    owner: ActorId,
    id: u64,
    now: u64,
    r: Result<Unbond, PoolError>,
)
    requires
        s.solvent(now),
        s.unbonds_consistent(),
        s.take_post(&t, owner, id, now, r),
    ensures
        t.solvent(now),
        t.rate(now) == s.rate(now),
        t.backed(now) == s.backed(now),
{
    let m = lists(s.unbonds@);
    let l = list_of(m, owner.key());
    if !s.paused && has_id(l, id) {
        let i = lemma_first_position(l, id);
        assert(m.contains_key(owner.key()));
        lemma_assets_remove(l, i);
        assert(owed(m).dom() == m.dom());
        lemma_amount_le_total(owed(m), owner.key());
        assert(amount_of(owed(m), owner.key()) == assets_of(l));
    }
}

/// Putting back an entry that was just taken restores the pool exactly: a claim whose payout
/// failed leaves no trace.
pub proof fn law_take_then_restore(
    s: PoolState,
    t: PoolState,
    u: PoolState,
    owner: ActorId,
    id: u64,
    now: u64,
    e: Unbond,
)
    requires
        s.unbonds_consistent(),
        s.take_post(&t, owner, id, now, Ok(e)),
        t.restore_post(&u, owner, e),
    ensures
        u.same_state(&s),
{
    broadcast use vstd::seq_lib::group_to_multiset_ensures;

    let m = lists(s.unbonds@);
    let l = list_of(m, owner.key());
    let i = lemma_first_position(l, id);
    assert(m.contains_key(owner.key()));
    lemma_assets_remove(l, i);
    assert(owed(m).dom() == m.dom());
    lemma_amount_le_total(owed(m), owner.key());
    assert(amount_of(owed(m), owner.key()) == assets_of(l));
    let m2 = lists(t.unbonds@);
    let l2 = list_of(m2, owner.key());
    assert(l2 == l.remove(i));
    assert(l2.push(e).to_multiset() =~= l.to_multiset());
    let m3 = lists(u.unbonds@);
    lemma_sorted_same_entries(l, m3[owner.key()]);
    assert(m3 =~= m) by {
        assert forall|k: Key| m3.contains_key(k) <==> m.contains_key(k) by {
            if k != owner.key() {
                assert(m3.remove(owner.key()).contains_key(k) == m3.contains_key(k));
            }
        }
        assert forall|k: Key| m3.contains_key(k) implies m3[k] == m[k] by {
            if k != owner.key() {
                assert(m3.remove(owner.key())[k] == m3[k]);
            }
        }
    }
    lemma_view_injective(u.unbonding_total, s.unbonding_total);
    lemma_view_injective(u.reserve, s.reserve);
}

/// Putting the fees back after their payout failed restores the pool exactly.
pub proof fn law_fees_revert_restores(
    s: PoolState,
    t: PoolState,
    u: PoolState,
    caller: ActorId,
    to: ActorId,
    amount: U256,
    e: PoolError,
    r: Result<U256, PoolError>,
)
    requires
        s.collect_post(&t, caller, to, Ok(amount)),
        t.settle_fees_post(&u, amount, Err(e), r),
    ensures
        u.same_state(&s),
{
    lemma_view_injective(u.reserve, s.reserve);
}

} // verus!
