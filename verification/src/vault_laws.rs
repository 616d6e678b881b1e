//! What the vault's operations keep, and what one call undoes of another.
use crate::actor::{lemma_key_injective, ActorId, Key};
use crate::ledger::{
    amount_of, amounts, debited, lemma_amount_le_total, lemma_no_zero_kept, lemma_total_credited,
    lemma_total_debited, lemma_total_insert, lemma_total_priced, lemma_priced_not_lower, priced, lemma_total_moved, lemma_total_remove, lemma_two_amounts_le_total, no_zero_entry, total,
};
use crate::vault::{YEAR_SECS, BPS, scale_nat, session_views, RedeemPreview, Session, VaultError, VaultState};
use crate::u256::{lemma_view_injective, max_nat, min_nat, sat_add, sat_mul, sat_sub, u256_max, U256};
use vstd::arithmetic::div_mod::lemma_div_is_ordered;
use vstd::arithmetic::mul::lemma_mul_inequality;
use crate::unbonds::{
    assets_of, book_ok, first_with, has_id, ids_ascending, lemma_assets_push, lemma_assets_remove,
    lemma_sorted_same_entries, list_of, lists, owed, Unbond,
};
use crate::vesting::{
    lemma_funded_length_bounded, lemma_locked_at_most_amount, lemma_locked_nonincreasing,
    locked_spec, sat_add_u64, weighted_length,
};
use vstd::prelude::*;

verus! {

broadcast use crate::u256::lemma_u256_bounded;

impl VaultState {
    /// The shares outstanding are the sum of the balances, and no zero balance is stored.
    pub open spec fn shares_consistent(&self) -> bool {
        &&& self.balances@.dom().finite()
        &&& self.total_shares@ == total(amounts(self.balances@))
        &&& no_zero_entry(amounts(self.balances@))
    }

    /// The holdings cover the fees, the assets locked for unbonds and the rewards still vesting
    /// at `now`.
    pub open spec fn solvent(&self, now: u64) -> bool {
        self.holdings@ >= self.fees_accrued@ + self.unbonding_total@ + self.locked(now)
    }
}

// --- shares: the supply is the sum of the balances ------------------------------------------

/// A transfer of shares keeps the supply equal to the sum of the balances; on consistent books
/// it never fails for overflow.
pub proof fn law_transfer_keeps_shares(
    s: VaultState,
    t: VaultState,
    from: ActorId,
    to: ActorId,
    value: nat,
    r: Result<(), VaultError>,
)
    requires
        s.shares_consistent(),
        s.transfer_post(&t, from, to, value, r),
    ensures
        t.shares_consistent(),
        r != Err::<(), VaultError>(VaultError::Overflow),
{
    let m = amounts(s.balances@);
    assert(m.dom() == s.balances@.dom());
    assert(amounts(t.balances@).dom() == t.balances@.dom());
    if !s.paused && !to.is_zero_spec() && value > 0 && value <= s.balance(from) {
        let mid = debited(m, from.key(), value);
        lemma_total_moved(m, from.key(), to.key(), value);
        lemma_no_zero_kept(m, from.key(), to.key(), value);
        lemma_total_debited(m, from.key(), value);
        if from.key() != to.key() {
            lemma_two_amounts_le_total(m, from.key(), to.key());
            assert(amount_of(mid, to.key()) == amount_of(m, to.key()));
        }
    }
}

/// A deposit mints exactly the shares it credits.
pub proof fn law_deposit_keeps_shares(
    s: VaultState,
    t: VaultState,
    owner: ActorId,
    assets: nat,
    now: u64,
    r: Result<U256, VaultError>,
)
    requires
        s.shares_consistent(),
        s.settle_post(&t, owner, assets, now, r),
    ensures
        t.shares_consistent(),
{
    let m = amounts(s.balances@);
    assert(m.dom() == s.balances@.dom());
    assert(amounts(t.balances@).dom() == t.balances@.dom());
    if s.shares_quote(assets, now) is Some {
        let q = max_nat(s.shares_quote(assets, now)->0, 1);
        if s.can_mint(owner, q) {
            lemma_total_credited(m, owner.key(), q);
            lemma_no_zero_kept(m, owner.key(), owner.key(), q);
        }
    }
}

/// Burning `value` of `from`'s shares (as an exit does) keeps the supply equal to the sum of
/// the balances.
proof fn lemma_burn_keeps_shares(s: VaultState, t: VaultState, from: ActorId, value: nat, now: u64)
    requires
        s.shares_consistent(),
        value > 0,
        value <= s.balance(from),
        s.burned(&t, from, value, now),
    ensures
        t.shares_consistent(),
{
    let m = amounts(s.balances@);
    assert(m.dom() == s.balances@.dom());
    assert(amounts(t.balances@).dom() == t.balances@.dom());
    lemma_total_debited(m, from.key(), value);
    lemma_no_zero_kept(m, from.key(), from.key(), value);
}

/// An instant exit burns exactly the shares it debits; on consistent books the burn itself
/// never fails.
pub proof fn law_redeem_keeps_shares(
    s: VaultState,
    t: VaultState,
    owner: ActorId,
    shares: U256,
    now: u64,
    r: Result<RedeemPreview, VaultError>,
)
    requires
        s.shares_consistent(),
        s.redeem_post(&t, owner, shares, now, r),
    ensures
        t.shares_consistent(),
{
    let m = amounts(s.balances@);
    if !s.paused && shares@ > 0 && s.balance(owner) >= shares@ && s.assets_quote(shares@, now)
        is Some {
        assert(m.dom() == s.balances@.dom());
        lemma_amount_le_total(m, owner.key());
        let a = s.assets_quote(shares@, now)->0;
        if a - s.fee_on(a) != 0 && !(a > s.distributable_at(now)) {
            lemma_burn_keeps_shares(s, t, owner, shares@, now);
        }
    }
}

/// A timed exit burns exactly the shares it debits; on consistent books the burn itself never
/// fails.
pub proof fn law_unbond_keeps_shares(
    s: VaultState,
    t: VaultState,
    owner: ActorId,
    shares: U256,
    now: u64,
    r: Result<Unbond, VaultError>,
)
    requires
        s.shares_consistent(),
        s.unbond_post(&t, owner, shares, now, r),
    ensures
        t.shares_consistent(),
{
    let m = amounts(s.balances@);
    if !s.paused && shares@ > 0 && s.balance(owner) >= shares@ && s.assets_quote(shares@, now)
        is Some {
        assert(m.dom() == s.balances@.dom());
        lemma_amount_le_total(m, owner.key());
        let a = s.assets_quote(shares@, now)->0;
        if a != 0 && !(a > s.distributable_at(now)) {
            lemma_burn_keeps_shares(s, t, owner, shares@, now);
        }
    }
}

/// Undoing an exit mints back exactly the shares it credits.
pub proof fn law_revert_keeps_shares(
    s: VaultState,
    t: VaultState,
    owner: ActorId,
    shares: nat,
    fee: nat,
    net: nat,
)
    requires
        s.shares_consistent(),
        shares > 0,
        s.revert_post(&t, owner, shares, fee, net),
    ensures
        t.shares_consistent(),
{
    let m = amounts(s.balances@);
    assert(m.dom() == s.balances@.dom());
    assert(amounts(t.balances@).dom() == t.balances@.dom());
    if s.can_mint(owner, shares) {
        lemma_total_credited(m, owner.key(), shares);
        lemma_no_zero_kept(m, owner.key(), owner.key(), shares);
    }
}

// --- solvency: the holdings cover what is owed ----------------------------------------------

/// Solvency at one instant holds at every later instant: what is locked only shrinks.
pub proof fn law_solvent_later(s: VaultState, t1: u64, t2: u64)
    requires
        s.solvent(t1),
        t1 <= t2,
    ensures
        s.solvent(t2),
{
    lemma_locked_nonincreasing(s.vest_amount@, s.vest_start_ms, s.vest_end_ms, t1, t2);
}

/// While solvent, what is distributable is exactly the holdings minus fees, unbonding assets
/// and locked rewards.
proof fn lemma_distributable_exact(s: VaultState, now: u64)
    requires
        s.solvent(now),
    ensures
        s.distributable_at(now) == s.holdings@ - s.fees_accrued@ - s.unbonding_total@ - s.locked(
            now,
        ),
{
}

/// A deposit keeps the vault solvent.
pub proof fn law_deposit_keeps_solvent(
    s: VaultState,
    t: VaultState,
    owner: ActorId,
    assets: nat,
    now: u64,
    r: Result<U256, VaultError>,
)
    requires
        s.solvent(now),
        s.settle_post(&t, owner, assets, now, r),
    ensures
        t.solvent(now),
{
    lemma_distributable_exact(s, now);
}

/// An instant exit keeps the vault solvent: it pays out of what is distributable.
pub proof fn law_redeem_keeps_solvent(
    s: VaultState,
    t: VaultState,
    owner: ActorId,
    shares: U256,
    now: u64,
    r: Result<RedeemPreview, VaultError>,
)
    requires
        s.solvent(now),
        s.redeem_post(&t, owner, shares, now, r),
    ensures
        t.solvent(now),
{
    lemma_distributable_exact(s, now);
}

/// A timed exit keeps the vault solvent: it locks assets out of what is distributable.
pub proof fn law_unbond_keeps_solvent(
    s: VaultState,
    t: VaultState,
    owner: ActorId,
    shares: U256,
    now: u64,
    r: Result<Unbond, VaultError>,
)
    requires
        s.solvent(now),
        s.unbond_post(&t, owner, shares, now, r),
    ensures
        t.solvent(now),
{
    lemma_distributable_exact(s, now);
}

/// Funding rewards keeps the vault solvent: the new tranche is backed by the assets that came
/// with it, and a refused funding changes nothing.
pub proof fn law_fund_keeps_solvent(
    s: VaultState,
    t: VaultState,
    assets: nat,
    now: u64,
    r: Result<(), VaultError>,
)
    requires
        s.solvent(now),
        s.fund_post(&t, assets, now, r),
    ensures
        t.solvent(now),
{
    lemma_locked_at_most_amount(t.vest_amount@, t.vest_start_ms, t.vest_end_ms, now);
}

// --- rewards: vesting and funding -------------------------------------------------------------

/// Funding releases nothing at the funding instant: what is locked grows by exactly the amount
/// funded, and neither what is distributable, the rate nor the backing moves.
pub proof fn law_fund_releases_nothing(
    s: VaultState,
    t: VaultState,
    assets: nat,
    now: u64,
)
    requires
        s.solvent(now),
        s.fund_post(&t, assets, now, Ok(())),
        now < u64::MAX,
        s.vesting_period_ms > 0,
    ensures
        t.locked(now) == s.locked(now) + assets,
        t.distributable_at(now) == s.distributable_at(now),
        t.rate(now) == s.rate(now),
        t.backed(now) == s.backed(now),
        t.above_base(now) == s.above_base(now),
{
    lemma_funded_length_bounded(
        s.locked(now),
        assets,
        s.vesting_period_ms,
        s.vest_end_ms,
        now,
    );
    lemma_distributable_exact(s, now);
}

/// A funding never pushes the end of the tranche past the later of the running tranche's end
/// and a full vesting period from now.
pub proof fn law_fund_end_bounded(s: VaultState, t: VaultState, assets: nat, now: u64)
    requires
        s.fund_post(&t, assets, now, Ok(())),
        s.vesting_period_ms > 0,
    ensures
        t.vest_end_ms > now || now == u64::MAX,
        t.vest_end_ms <= s.vest_end_ms || t.vest_end_ms <= sat_add_u64(now, s.vesting_period_ms),
{
    lemma_funded_length_bounded(
        s.locked(now),
        assets,
        s.vesting_period_ms,
        s.vest_end_ms,
        now,
    );
}

/// The release schedule of the running tranche: never more than the tranche is locked, what
/// is locked only shrinks with time, all of it is locked up to the start, and nothing at or
/// after the end.
pub proof fn law_locked_rewards_schedule(s: VaultState, t1: u64, t2: u64)
    requires
        t1 <= t2,
    ensures
        s.locked(t1) <= s.vest_amount@,
        s.locked(t2) <= s.locked(t1),
        t1 >= s.vest_end_ms ==> s.locked(t1) == 0,
        t1 <= s.vest_start_ms && t1 < s.vest_end_ms ==> s.locked(t1) == s.vest_amount@,
{
    lemma_locked_at_most_amount(s.vest_amount@, s.vest_start_ms, s.vest_end_ms, t1);
    lemma_locked_nonincreasing(s.vest_amount@, s.vest_start_ms, s.vest_end_ms, t1, t2);
}

// --- the reported APY and the length of a funded tranche --------------------------------------

/// While a tranche is running, the reported APY is the tranche's release rate annualised over
/// what is distributable: `vest_amount` spread over the tranche's span, times a year, in basis
/// points of the distributable assets, rounded down and capped at `u32::MAX`. It does not
/// depend on how much of the tranche has vested already. Left out: a tranche or a distributable
/// amount so large that the products saturate.
pub proof fn law_apy_is_the_annualised_release_rate(s: VaultState, now: u64)
    requires
        s.vest_start_ms < now < s.vest_end_ms,
        s.vest_amount@ > 0,
        s.total_shares@ > 0,
        s.distributable_at(now) > 0,
        s.vest_amount@ * ((YEAR_SECS * 1000) as nat) * (BPS as nat) <= u256_max(),
        ((s.vest_end_ms - s.vest_start_ms) as nat) * s.distributable_at(now) <= u256_max(),
    ensures
        s.apy(now) as nat == min_nat(
            s.vest_amount@ * ((YEAR_SECS * 1000) as nat) * (BPS as nat) / (((s.vest_end_ms
                - s.vest_start_ms) as nat) * s.distributable_at(now)),
            u32::MAX as nat,
        ),
{
}

/// Two instants inside the same running tranche with the same distributable assets report the
/// same APY. Left out: products that saturate.
pub proof fn law_apy_ignores_what_has_vested(s: VaultState, t1: u64, t2: u64)
    requires
        s.vest_start_ms < t1 < s.vest_end_ms,
        s.vest_start_ms < t2 < s.vest_end_ms,
        s.vest_amount@ > 0,
        s.total_shares@ > 0,
        s.distributable_at(t1) > 0,
        s.distributable_at(t1) == s.distributable_at(t2),
        s.vest_amount@ * ((YEAR_SECS * 1000) as nat) * (BPS as nat) <= u256_max(),
        ((s.vest_end_ms - s.vest_start_ms) as nat) * s.distributable_at(t1) <= u256_max(),
    ensures
        s.apy(t1) == s.apy(t2),
{
    law_apy_is_the_annualised_release_rate(s, t1);
    law_apy_is_the_annualised_release_rate(s, t2);
}

/// A funding while `rem` is still locked with `left` milliseconds to go starts a tranche whose
/// length is the amount-weighted average of the time left and a full vesting period, rounded
/// down and at least a millisecond. So it lies between the two, and a funding larger than
/// what is still locked, with at least two milliseconds less than a full period left, ends
/// later than the running tranche. Left out: amounts so large that the weighting's products saturate, and an end past
/// `u64::MAX`.
pub proof fn law_fund_weights_the_tranche(s: VaultState, t: VaultState, assets: nat, now: u64)
    requires
        s.fund_post(&t, assets, now, Ok(())),
        s.locked(now) > 0,
        now < s.vest_end_ms,
        s.locked(now) * ((s.vest_end_ms - now) as nat) + assets * (s.vesting_period_ms as nat)
            <= u256_max(),
        now as nat + max_nat((s.vest_end_ms - now) as nat, s.vesting_period_ms as nat) <= u64::MAX,
    ensures
        t.vest_start_ms == now,
        t.vest_end_ms - now == max_nat(
            (s.locked(now) * ((s.vest_end_ms - now) as nat) + assets * (s.vesting_period_ms as nat))
                / (s.locked(now) + assets),
            1,
        ),
        min_nat((s.vest_end_ms - now) as nat, s.vesting_period_ms as nat) <= t.vest_end_ms - now,
        t.vest_end_ms - now <= max_nat((s.vest_end_ms - now) as nat, s.vesting_period_ms as nat),
        assets > s.locked(now) && (s.vest_end_ms - now) + 2 <= s.vesting_period_ms ==> t.vest_end_ms
            > s.vest_end_ms,
{
    let rem = s.locked(now);
    let left = (s.vest_end_ms - now) as nat;
    let period = s.vesting_period_ms as nat;
    let num = rem * left + assets * period;
    let den = rem + assets;
    let w = num / den;
    assert(sat_sub(s.vest_end_ms as nat, now as nat) == left);
    assert(sat_mul(rem, left) == rem * left);
    assert(assets * period <= u256_max()) by (nonlinear_arith)
        requires
            rem * left + assets * period <= u256_max(),
            rem * left >= 0,
    ;
    assert(sat_mul(assets, period) == assets * period);
    assert(weighted_length(rem, assets, s.vesting_period_ms, s.vest_end_ms, now) == w);
    let lo = min_nat(left, period);
    let hi = max_nat(left, period);
    assert(lo * den <= num && num <= hi * den) by (nonlinear_arith)
        requires
            lo <= left,
            lo <= period,
            left <= hi,
            period <= hi,
            den == rem + assets,
            num == rem * left + assets * period,
    ;
    assert(lo <= w && w <= hi) by (nonlinear_arith)
        requires
            den > 0,
            w == num / den,
            lo * den <= num,
            num <= hi * den,
    ;
    assert(left >= 1);
    assert(max_nat(w, 1) < 0x1_0000_0000_0000_0000);
    vstd::arithmetic::div_mod::lemma_small_mod(max_nat(w, 1), 0x1_0000_0000_0000_0000);
    if assets > rem && left + 2 <= period {
        assert(num >= (left + 1) * den) by (nonlinear_arith)
            requires
                assets > rem,
                left + 2 <= period,
                den == rem + assets,
                num == rem * left + assets * period,
        ;
        assert(w > left) by (nonlinear_arith)
            requires
                den > 0,
                w == num / den,
                num >= (left + 1) * den,
        ;
    }
}

/// Funding a single unit never moves the end of a running tranche that has no more than a full
/// period left and still locks at least as many units as the period exceeds the time left:
/// dust cannot stretch a tranche. Left out: a locked amount so large that the weighting's
/// product saturates.
pub proof fn law_dust_fund_keeps_end(s: VaultState, t: VaultState, now: u64)
    requires
        s.fund_post(&t, 1, now, Ok(())),
        now < s.vest_end_ms,
        s.vest_end_ms - now <= s.vesting_period_ms,
        s.locked(now) > 0,
        s.locked(now) + (s.vest_end_ms - now) >= s.vesting_period_ms,
        s.locked(now) * ((s.vest_end_ms - now) as nat) + s.vesting_period_ms <= u256_max(),
    ensures
        t.vest_end_ms == s.vest_end_ms,
        t.vest_start_ms == now,
        t.vest_amount@ == s.locked(now) + 1,
{
    let rem = s.locked(now);
    let left = (s.vest_end_ms - now) as nat;
    let period = s.vesting_period_ms as nat;
    assert(sat_sub(s.vest_end_ms as nat, now as nat) == left);
    assert(sat_mul(1, period) == period);
    assert(sat_mul(rem, left) == rem * left);
    assert(left * (rem + 1) == rem * left + left) by (nonlinear_arith);
    vstd::arithmetic::div_mod::lemma_fundamental_div_mod_converse(
        (rem * left + period) as int,
        (rem + 1) as int,
        left as int,
        (period - left) as int,
    );
    vstd::arithmetic::div_mod::lemma_small_mod(left, 0x1_0000_0000_0000_0000);
}

/// Funding when nothing is left locked starts a tranche of a full vesting period.
pub proof fn law_fresh_tranche_full_period(s: VaultState, t: VaultState, assets: nat, now: u64)
    requires
        s.fund_post(&t, assets, now, Ok(())),
        s.locked(now) == 0,
        s.vesting_period_ms > 0,
    ensures
        t.vest_start_ms == now,
        t.vest_end_ms == sat_add_u64(now, s.vesting_period_ms),
        t.vest_amount@ == assets,
{
    vstd::arithmetic::div_mod::lemma_small_mod(
        s.vesting_period_ms as nat,
        0x1_0000_0000_0000_0000,
    );
}

// --- exits --------------------------------------------------------------------------------------

/// A timed exit is neutral for everybody else: the holdings do not move and what is
/// distributable goes down by exactly the assets locked for the entry.
pub proof fn law_unbond_rate_neutral(
    s: VaultState,
    t: VaultState,
    owner: ActorId,
    shares: U256,
    now: u64,
    e: Unbond,
)
    requires
        s.unbond_post(&t, owner, shares, now, Ok(e)),
    ensures
        t.holdings == s.holdings,
        e.assets@ <= s.distributable_at(now),
        t.distributable_at(now) == s.distributable_at(now) - e.assets@,
{
}

/// Undoing an instant exit restores the vault exactly: the shares come back to the owner, the
/// fee leaves the bucket and the payout returns to the holdings. The one field that may differ
/// is the base rate, refreshed when the exit burned the last share.
pub proof fn law_revert_restores(
    s: VaultState,
    t: VaultState,
    u: VaultState,
    owner: ActorId,
    shares: U256,
    now: u64,
    p: RedeemPreview,
)
    requires
        s.redeem_post(&t, owner, shares, now, Ok(p)),
        t.revert_post(&u, owner, shares@, p.fee@, p.net@),
    ensures
        u.same_config(&s),
        u.same_funds(&s),
        u.same_vesting(&s),
        u.same_unbonds(&s),
        u.same_sessions(&s),
        u.total_shares == s.total_shares,
        amounts(u.balances@) == amounts(s.balances@),
        amounts(u.allowances@) == amounts(s.allowances@),
        s.total_shares@ != shares@ ==> u.base_rate == s.base_rate,
{
    let m = amounts(s.balances@);
    let k = owner.key();
    let a = s.assets_quote(shares@, now)->0;
    let d = s.distributable_at(now);
    assert(a - s.fee_on(a) > 0);
    assert(a <= d);
    assert(d > 0);
    assert(s.fees_accrued@ + p.fee@ <= s.holdings@);
    assert(m.contains_key(k));
    assert(amount_of(debited(m, k, shares@), k) == amount_of(m, k) - shares@);
    assert(t.can_mint(owner, shares@));
    assert(amounts(u.balances@) =~= m);
    lemma_view_injective(u.total_shares, s.total_shares);
    lemma_view_injective(u.fees_accrued, s.fees_accrued);
    lemma_view_injective(u.holdings, s.holdings);
}

// --- quotes ---------------------------------------------------------------------------------------

proof fn lemma_floor_round_trip(x: nat, p: nat, d: nat)
    requires
        p > 0,
        d > 0,
    ensures
        (x * p / d) * d / p <= x,
{
    assert((x * p / d) * d <= x * p) by (nonlinear_arith)
        requires
            d > 0,
    ;
    assert((x * p / d) * d / p <= x) by (nonlinear_arith)
        requires
            p > 0,
            (x * p / d) * d <= x * p,
    ;
}

/// Buying shares for `assets` and selling them back at once never returns more than `assets`.
pub proof fn law_round_trip_assets(s: VaultState, assets: nat, now: u64, q: nat, back: nat)
    requires
        s.base_rate@ > 0,
        s.shares_quote(assets, now) == Some(q),
        s.assets_quote(q, now) == Some(back),
    ensures
        back <= assets,
{
    if s.empty_at(now) {
        lemma_floor_round_trip(assets, scale_nat(), s.base_rate@);
    } else {
        lemma_floor_round_trip(assets, s.total_shares@, s.distributable_at(now));
    }
}

/// Selling `shares` and buying back with the proceeds at once never yields more than `shares`.
pub proof fn law_round_trip_shares(s: VaultState, shares: nat, now: u64, a: nat, back: nat)
    requires
        s.base_rate@ > 0,
        s.assets_quote(shares, now) == Some(a),
        s.shares_quote(a, now) == Some(back),
    ensures
        back <= shares,
{
    if s.empty_at(now) {
        lemma_floor_round_trip(shares, s.base_rate@, scale_nat());
    } else {
        lemma_floor_round_trip(shares, s.distributable_at(now), s.total_shares@);
    }
}

/// Buying `q` shares for `a` on a basis of `x` assets over `y` shares, and selling them back on
/// the basis that buying leaves, returns at most `a`.
proof fn lemma_buy_then_sell(a: nat, x: nat, y: nat, q: nat)
    requires
        x > 0,
        y > 0,
        q == a * y / x,
    ensures
        q * (x + a) / (y + q) <= a,
{
    assert(q * x <= a * y) by (nonlinear_arith)
        requires
            x > 0,
            q == a * y / x,
    ;
    assert(q * (x + a) <= a * (y + q)) by (nonlinear_arith)
        requires
            q * x <= a * y,
    ;
    assert(q * (x + a) / (y + q) <= a) by (nonlinear_arith)
        requires
            y + q > 0,
            q * (x + a) <= a * (y + q),
    ;
}

/// `q` of `y + q` shares are worth at most the `a` assets that joined the pot.
proof fn lemma_share_of_new_pot(a: nat, y: nat, q: nat)
    requires
        q > 0,
    ensures
        q * a / (y + q) <= a,
{
    assert(q * a <= a * (y + q)) by (nonlinear_arith)
        requires
            q > 0,
    ;
    assert(q * a / (y + q) <= a) by (nonlinear_arith)
        requires
            y + q > 0,
            q * a <= a * (y + q),
    ;
}

/// Depositing `assets` and redeeming every share it minted in the same instant never returns
/// more than `assets` (before the instant fee). Left out: a deposit into a priced vault that
/// quotes zero shares, since the one share it then mints is worth a whole share of the pot.
pub proof fn law_deposit_then_redeem_never_profits(
    s: VaultState,
    t: VaultState,
    owner: ActorId,
    assets: nat,
    now: u64,
    minted: U256,
    back: nat,
)
    requires
        s.solvent(now),
        assets > 0,
        s.empty_at(now) || s.shares_quote(assets, now) != Some(0nat),
        s.settle_post(&t, owner, assets, now, Ok(minted)),
        t.assets_quote(minted@, now) == Some(back),
    ensures
        back <= assets,
{
    lemma_distributable_exact(s, now);
    let q = minted@;
    assert(t.locked(now) == s.locked(now));
    assert(t.total_shares@ == s.total_shares@ + q);
    assert(q >= 1);
    if s.total_shares@ == 0 {
        assert(t.fees_accrued@ == s.holdings@ - s.unbonding_total@ - s.locked(now));
        assert(t.distributable_at(now) == assets);
        lemma_share_of_new_pot(assets, 0, q);
    } else if s.distributable_at(now) == 0 {
        assert(t.distributable_at(now) == assets);
        lemma_share_of_new_pot(assets, s.total_shares@, q);
    } else {
        assert(t.distributable_at(now) == s.distributable_at(now) + assets);
        lemma_buy_then_sell(assets, s.distributable_at(now), s.total_shares@, q);
    }
}

/// A price of `a2` over `t2` is no lower than `a1` over `t1`, rounded down at any scale, when
/// the cross products say so.
proof fn lemma_rate_not_lower(a1: nat, t1: nat, a2: nat, t2: nat, sc: nat)
    requires
        t1 > 0,
        t2 > 0,
        a2 * t1 >= a1 * t2,
    ensures
        a1 * sc / t1 <= a2 * sc / t2,
{
    let r = a1 * sc / t1;
    assert(r * t1 <= a1 * sc) by (nonlinear_arith)
        requires
            t1 > 0,
            r == a1 * sc / t1,
    ;
    assert(r * t1 * t2 <= a2 * sc * t1) by (nonlinear_arith)
        requires
            r * t1 <= a1 * sc,
            a2 * t1 >= a1 * t2,
    ;
    assert(r * t2 <= a2 * sc) by (nonlinear_arith)
        requires
            t1 > 0,
            r * t1 * t2 <= a2 * sc * t1,
    ;
    assert(r <= a2 * sc / t2) by (nonlinear_arith)
        requires
            t2 > 0,
            r * t2 <= a2 * sc,
    ;
}

/// Shares sold for `a` at a basis of `x` over `y`, rounded down, leave the basis priced no
/// lower, and leave something behind while shares remain.
proof fn lemma_sell_keeps_price(q: nat, x: nat, y: nat, a: nat)
    requires
        y > 0,
        a == q * x / y,
        q < y,
    ensures
        a <= x,
        x > 0 ==> a < x,
        ((x - a) as nat) * y >= x * ((y - q) as nat),
{
    assert(a * y <= q * x) by (nonlinear_arith)
        requires
            y > 0,
            a == q * x / y,
    ;
    assert(a <= x && (x > 0 ==> a < x)) by (nonlinear_arith)
        requires
            y > 0,
            a * y <= q * x,
            q < y,
    ;
    assert(((x - a) as nat) * y >= x * ((y - q) as nat)) by (nonlinear_arith)
        requires
            a * y <= q * x,
            a <= x,
            q < y,
    ;
}

/// A deposit into a backed vault never lowers the rate: the shares it mints are rounded down,
/// in the vault's favour. Left out: a deposit that quotes zero shares (it mints one share
/// anyway), and books so large that the rate's product saturates.
pub proof fn law_deposit_never_lowers_rate(
    s: VaultState,
    t: VaultState,
    owner: ActorId,
    assets: nat,
    now: u64,
    minted: U256,
)
    requires
        s.solvent(now),
        s.can_price(assets, now),
        s.backed(now),
        s.shares_quote(assets, now) != Some(0nat),
        (s.holdings@ + assets) * scale_nat() <= u256_max(),
        s.settle_post(&t, owner, assets, now, Ok(minted)),
    ensures
        s.rate(now) <= t.rate(now),
        t.base_rate == s.base_rate,
{
    lemma_distributable_exact(s, now);
    let q = minted@;
    let sc = scale_nat();
    assert(t.locked(now) == s.locked(now));
    assert(t.total_shares@ == s.total_shares@ + q);
    if s.total_shares@ == 0 {
        let br = s.base_rate@;
        assert(t.fees_accrued@ == s.holdings@ - s.unbonding_total@ - s.locked(now));
        assert(t.distributable_at(now) == assets);
        assert(q == assets * sc / br);
        assert(q >= 1);
        assert(br * q <= assets * sc) by (nonlinear_arith)
            requires
                br > 0,
                q == assets * sc / br,
        ;
        assert(assets > 0) by (nonlinear_arith)
            requires
                br > 0,
                q >= 1,
                br * q <= assets * sc,
        ;
        assert(assets * sc <= u256_max()) by (nonlinear_arith)
            requires
                assets <= s.holdings@ + assets,
                (s.holdings@ + assets) * sc <= u256_max(),
        ;
        assert(br <= assets * sc / q) by (nonlinear_arith)
            requires
                q > 0,
                br * q <= assets * sc,
        ;
    } else {
        let d = s.distributable_at(now);
        let ts = s.total_shares@;
        assert(t.distributable_at(now) == d + assets);
        assert(q == assets * ts / d);
        assert(q * d <= assets * ts) by (nonlinear_arith)
            requires
                d > 0,
                q == assets * ts / d,
        ;
        assert((d + assets) * ts >= d * (ts + q)) by (nonlinear_arith)
            requires
                q * d <= assets * ts,
        ;
        assert((d + assets) * sc <= u256_max()) by (nonlinear_arith)
            requires
                d + assets <= s.holdings@ + assets,
                (s.holdings@ + assets) * sc <= u256_max(),
        ;
        assert(d * sc <= (d + assets) * sc) by (nonlinear_arith);
        lemma_rate_not_lower(d, ts, d + assets, ts + q, sc);
    }
}

/// A redeem that leaves shares outstanding never lowers the rate: its payout is rounded down,
/// in the vault's favour. Left out: books so large that the rate's product saturates; the
/// redeem of the last share is `law_last_redeem_keeps_rate`.
pub proof fn law_redeem_never_lowers_rate(
    s: VaultState,
    t: VaultState,
    owner: ActorId,
    shares: U256,
    now: u64,
    p: RedeemPreview,
)
    requires
        s.solvent(now),
        s.holdings@ * scale_nat() <= u256_max(),
        s.redeem_post(&t, owner, shares, now, Ok(p)),
        shares@ < s.total_shares@,
    ensures
        s.rate(now) <= t.rate(now),
        t.base_rate == s.base_rate,
{
    lemma_distributable_exact(s, now);
    let q = shares@;
    let a = p.assets@;
    let d = s.distributable_at(now);
    let ts = s.total_shares@;
    let sc = scale_nat();
    assert(t.locked(now) == s.locked(now));
    assert(!s.empty_at(now));
    assert(a == q * d / ts);
    lemma_sell_keeps_price(q, d, ts, a);
    assert(t.distributable_at(now) == d - a);
    assert(!t.empty_at(now));
    assert(d * sc <= u256_max()) by (nonlinear_arith)
        requires
            d <= s.holdings@,
            s.holdings@ * sc <= u256_max(),
    ;
    assert(((d - a) as nat) * sc <= d * sc) by (nonlinear_arith)
        requires
            a <= d,
    ;
    lemma_rate_not_lower(d, ts, (d - a) as nat, (ts - q) as nat, sc);
}

/// An unbond that leaves shares outstanding never lowers the rate: the assets it locks are
/// rounded down, in the vault's favour. Left out: books so large that the rate's product
/// saturates; the unbond of the last share is `law_last_unbond_keeps_rate`.
pub proof fn law_unbond_never_lowers_rate(
    s: VaultState,
    t: VaultState,
    owner: ActorId,
    shares: U256,
    now: u64,
    e: Unbond,
)
    requires
        s.solvent(now),
        s.holdings@ * scale_nat() <= u256_max(),
        s.unbond_post(&t, owner, shares, now, Ok(e)),
        shares@ < s.total_shares@,
    ensures
        s.rate(now) <= t.rate(now),
        t.base_rate == s.base_rate,
{
    lemma_distributable_exact(s, now);
    let q = shares@;
    let a = e.assets@;
    let d = s.distributable_at(now);
    let ts = s.total_shares@;
    let sc = scale_nat();
    assert(t.locked(now) == s.locked(now));
    assert(!s.empty_at(now));
    assert(a == q * d / ts);
    lemma_sell_keeps_price(q, d, ts, a);
    assert(t.distributable_at(now) == d - a);
    assert(!t.empty_at(now));
    assert(d * sc <= u256_max()) by (nonlinear_arith)
        requires
            d <= s.holdings@,
            s.holdings@ * sc <= u256_max(),
    ;
    assert(((d - a) as nat) * sc <= d * sc) by (nonlinear_arith)
        requires
            a <= d,
    ;
    lemma_rate_not_lower(d, ts, (d - a) as nat, (ts - q) as nat, sc);
}

/// Time never lowers the rate of a priced vault: what is distributable only grows as rewards
/// vest. Left out: a vault that prices at `base_rate` at the earlier instant, whose first
/// vested rewards may price its shares below that.
pub proof fn law_rate_never_falls_with_time(s: VaultState, t1: u64, t2: u64)
    requires
        t1 <= t2,
        !s.empty_at(t1),
    ensures
        s.rate(t1) <= s.rate(t2),
{
    lemma_locked_nonincreasing(s.vest_amount@, s.vest_start_ms, s.vest_end_ms, t1, t2);
    assert(s.distributable_at(t1) <= s.distributable_at(t2));
    assert(!s.empty_at(t2));
    lemma_mul_inequality(s.distributable_at(t1) as int, s.distributable_at(t2) as int, scale_nat() as int);
    lemma_div_is_ordered(
        sat_mul(s.distributable_at(t1), scale_nat()) as int,
        sat_mul(s.distributable_at(t2), scale_nat()) as int,
        s.total_shares@ as int,
    );
}

/// The redeem that burns the last share leaves the vault pricing, at every later instant, at the
/// rate it had before.
pub proof fn law_last_redeem_keeps_rate(
    s: VaultState,
    t: VaultState,
    owner: ActorId,
    shares: U256,
    now: u64,
    p: RedeemPreview,
    later: u64,
)
    requires
        s.redeem_post(&t, owner, shares, now, Ok(p)),
        shares@ == s.total_shares@,
    ensures
        t.rate(later) == s.rate(now),
{
    assert(t.total_shares@ == 0);
}

/// The unbond that burns the last share leaves the vault pricing, at every later instant, at the
/// rate it had before.
pub proof fn law_last_unbond_keeps_rate(
    s: VaultState,
    t: VaultState,
    owner: ActorId,
    shares: U256,
    now: u64,
    e: Unbond,
    later: u64,
)
    requires
        s.unbond_post(&t, owner, shares, now, Ok(e)),
        shares@ == s.total_shares@,
    ensures
        t.rate(later) == s.rate(now),
{
    assert(t.total_shares@ == 0);
}

/// A transfer of shares moves no asset and no share in or out: the rate and the backing stay
/// where they were.
pub proof fn law_transfer_keeps_rate(
    s: VaultState,
    t: VaultState,
    from: ActorId,
    to: ActorId,
    value: nat,
    r: Result<(), VaultError>,
    now: u64,
)
    requires
        s.transfer_post(&t, from, to, value, r),
    ensures
        t.rate(now) == s.rate(now),
        t.backed(now) == s.backed(now),
        t.above_base(now) == s.above_base(now),
{
}

/// Taking the fees out takes from the holdings exactly what the fee bucket held: the rate and
/// the backing stay where they were.
pub proof fn law_take_fees_keeps_rate(s: VaultState, t: VaultState, r: Result<U256, VaultError>, now: u64)
    requires
        s.take_fees_post(&t, r),
    ensures
        t.rate(now) == s.rate(now),
        t.backed(now) == s.backed(now),
        t.above_base(now) == s.above_base(now),
{
    assert(t.locked(now) == s.locked(now));
}

// --- backing: nothing is promised that is not there ----------------------------------------

impl VaultState {
    /// While shares are outstanding something is distributable, so the vault prices them by
    /// what it holds and not by `base_rate`.
    pub open spec fn backed(&self, now: u64) -> bool {
        self.total_shares@ > 0 ==> self.distributable_at(now) > 0
    }

    /// What each holder's shares are worth at `now`, priced as `assets_for` prices them.
    pub open spec fn claims(&self, now: u64) -> Map<Key, nat> {
        if self.empty_at(now) {
            priced(amounts(self.balances@), self.base_rate@, scale_nat())
        } else {
            priced(amounts(self.balances@), self.distributable_at(now), self.total_shares@)
        }
    }
}

/// On a backed vault, what every holder could take out at `now` sums to at most what is
/// distributable: nothing is promised that is not there.
pub proof fn law_nothing_over_promised(s: VaultState, now: u64)
    requires
        s.shares_consistent(),
        s.backed(now),
    ensures
        total(s.claims(now)) <= s.distributable_at(now),
{
    let m = amounts(s.balances@);
    assert(m.dom() == s.balances@.dom());
    let ts = s.total_shares@;
    let d = s.distributable_at(now);
    if ts == 0 {
        lemma_total_priced(m, s.base_rate@, scale_nat());
    } else {
        lemma_total_priced(m, d, ts);
        assert(ts * d / ts == d) by (nonlinear_arith)
            requires
                ts > 0,
        ;
    }
}

/// Time never unbacks the vault: what is distributable only grows.
pub proof fn law_backed_later(s: VaultState, t1: u64, t2: u64)
    requires
        s.backed(t1),
        t1 <= t2,
    ensures
        s.backed(t2),
{
    lemma_locked_nonincreasing(s.vest_amount@, s.vest_start_ms, s.vest_end_ms, t1, t2);
}

/// A deposit keeps the vault backed: what it brings in becomes distributable. Left out: a
/// deposit of nothing into a vault without shares, which mints a share backed by nothing (the
/// deposit message refuses it before any token moves).
pub proof fn law_deposit_keeps_backed(
    s: VaultState,
    t: VaultState,
    owner: ActorId,
    assets: nat,
    now: u64,
    minted: U256,
)
    requires
        s.solvent(now),
        s.backed(now),
        assets > 0,
        s.settle_post(&t, owner, assets, now, Ok(minted)),
    ensures
        t.backed(now),
{
    lemma_distributable_exact(s, now);
    assert(t.locked(now) == s.locked(now));
    if s.total_shares@ == 0 {
        assert(t.fees_accrued@ == s.holdings@ - s.unbonding_total@ - s.locked(now));
        assert(t.distributable_at(now) == assets);
    } else {
        assert(t.distributable_at(now) == s.distributable_at(now) + assets);
    }
}

/// A redeem keeps the vault backed: a payout priced at the rate, rounded down, always leaves
/// something behind for the shares that remain.
pub proof fn law_redeem_keeps_backed(
    s: VaultState,
    t: VaultState,
    owner: ActorId,
    shares: U256,
    now: u64,
    p: RedeemPreview,
)
    requires
        s.solvent(now),
        s.redeem_post(&t, owner, shares, now, Ok(p)),
    ensures
        t.backed(now),
{
    lemma_distributable_exact(s, now);
    assert(t.locked(now) == s.locked(now));
    if shares@ < s.total_shares@ {
        let d = s.distributable_at(now);
        assert(!s.empty_at(now));
        lemma_sell_keeps_price(shares@, d, s.total_shares@, p.assets@);
        assert(t.distributable_at(now) == d - p.assets@);
    }
}

/// An unbond keeps the vault backed: assets locked at the rate, rounded down, always leave
/// something behind for the shares that remain.
pub proof fn law_unbond_keeps_backed(
    s: VaultState,
    t: VaultState,
    owner: ActorId,
    shares: U256,
    now: u64,
    e: Unbond,
)
    requires
        s.solvent(now),
        s.unbond_post(&t, owner, shares, now, Ok(e)),
    ensures
        t.backed(now),
{
    lemma_distributable_exact(s, now);
    assert(t.locked(now) == s.locked(now));
    if shares@ < s.total_shares@ {
        let d = s.distributable_at(now);
        assert(!s.empty_at(now));
        lemma_sell_keeps_price(shares@, d, s.total_shares@, e.assets@);
        assert(t.distributable_at(now) == d - e.assets@);
    }
}

impl VaultState {
    /// The outstanding shares are worth at least `base_rate` each.
    pub open spec fn above_base(&self, now: u64) -> bool {
        self.total_shares@ * self.base_rate@ <= self.distributable_at(now) * scale_nat()
    }
}

/// A vault whose shares are worth at least `base_rate` each never quotes below it. Left out:
/// books so large that the rate's product saturates.
pub proof fn law_rate_at_least_base(s: VaultState, now: u64)
    requires
        s.above_base(now),
        s.distributable_at(now) * scale_nat() <= u256_max(),
    ensures
        s.base_rate@ <= s.rate(now),
{
    if !s.empty_at(now) {
        let d = s.distributable_at(now);
        let ts = s.total_shares@;
        assert(s.base_rate@ <= d * scale_nat() / ts) by (nonlinear_arith)
            requires
                ts > 0,
                ts * s.base_rate@ <= d * scale_nat(),
        ;
    }
}

/// One operation on the vault, with its arguments and its result.
#[allow(inconsistent_fields)]
pub enum VaultStep {
    Transfer { from: ActorId, to: ActorId, value: U256, r: Result<(), VaultError> },
    Deposit { owner: ActorId, assets: U256, now: u64, r: Result<U256, VaultError> },
    Redeem { owner: ActorId, shares: U256, now: u64, r: Result<RedeemPreview, VaultError> },
    RevertRedeem { owner: ActorId, shares: U256, fee: U256, net: U256 },
    Fund { assets: U256, now: u64, r: Result<(), VaultError> },
    Unbond { owner: ActorId, shares: U256, now: u64, r: Result<Unbond, VaultError> },
    Take { owner: ActorId, id: u64, now: u64, r: Result<Unbond, VaultError> },
    Restore { owner: ActorId, entry: Unbond },
    TakeFees { r: Result<U256, VaultError> },
    RestoreFees { amount: U256 },
    Accept { key: ActorId, owner: ActorId, now: u64, r: Result<Session, VaultError> },
    Revoke { owner: ActorId, r: bool },
}

impl VaultState {
    /// `new` is `self` after `step`.
    pub open spec fn step_post(&self, new: &VaultState, step: VaultStep) -> bool {
        match step {
            VaultStep::Transfer { from, to, value, r } => self.transfer_post(new, from, to, value@, r),
            VaultStep::Deposit { owner, assets, now, r } => self.settle_post(new, owner, assets@, now, r),
            VaultStep::Redeem { owner, shares, now, r } => self.redeem_post(new, owner, shares, now, r),
            VaultStep::RevertRedeem { owner, shares, fee, net } => self.revert_post(new, owner, shares@, fee@, net@),
            VaultStep::Fund { assets, now, r } => self.fund_post(new, assets@, now, r),
            VaultStep::Unbond { owner, shares, now, r } => self.unbond_post(new, owner, shares, now, r),
            VaultStep::Take { owner, id, now, r } => self.take_post(new, owner, id, now, r),
            VaultStep::Restore { owner, entry } => self.restore_post(new, owner, entry),
            VaultStep::TakeFees { r } => self.take_fees_post(new, r),
            VaultStep::RestoreFees { amount } => self.restore_fees_post(new, amount),
            VaultStep::Accept { key, owner, now, r } => self.accept_post(new, key, owner, now, r),
            VaultStep::Revoke { owner, r } => self.revoke_post(new, owner, r),
        }
    }

    /// The instant at which `step` prices shares, if it burns any.
    pub open spec fn exit_instant(step: VaultStep) -> Option<u64> {
        match step {
            VaultStep::Redeem { now, .. } => Some(now),
            VaultStep::Unbond { now, .. } => Some(now),
            _ => None,
        }
    }
}

/// Every operation keeps the base rate at 1.0 or above: only burning the last share moves it,
/// to the rate at that instant, which is at least the base rate while the shares are worth at
/// least `base_rate` each. Left out: an exit from books so large that the rate's product
/// saturates. (The remaining commands, configuration, pausing, allowances and proposals, leave
/// the base rate as it is in their own `ensures`.)
pub proof fn law_every_step_keeps_base_rate(s: VaultState, t: VaultState, step: VaultStep)
    requires
        s.base_rate@ >= scale_nat(),
        s.step_post(&t, step),
        VaultState::exit_instant(step) matches Some(now) ==> s.above_base(now)
            && s.distributable_at(now) * scale_nat() <= u256_max(),
    ensures
        t.base_rate@ >= scale_nat(),
{
    if let Some(now) = VaultState::exit_instant(step) {
        law_rate_at_least_base(s, now);
    }
}

/// Time keeps the shares worth at least `base_rate`: what is distributable only grows.
pub proof fn law_above_base_later(s: VaultState, t1: u64, t2: u64)
    requires
        s.above_base(t1),
        t1 <= t2,
    ensures
        s.above_base(t2),
{
    lemma_locked_nonincreasing(s.vest_amount@, s.vest_start_ms, s.vest_end_ms, t1, t2);
    assert(s.distributable_at(t1) * scale_nat() <= s.distributable_at(t2) * scale_nat())
        by (nonlinear_arith)
        requires
            s.distributable_at(t1) <= s.distributable_at(t2),
    ;
}

/// A deposit keeps the shares worth at least `base_rate`: it buys at the rate, rounded down.
/// Left out: a deposit that quotes zero shares (it mints one share anyway).
pub proof fn law_deposit_keeps_above_base(
    s: VaultState,
    t: VaultState,
    owner: ActorId,
    assets: nat,
    now: u64,
    minted: U256,
)
    requires
        s.solvent(now),
        s.above_base(now),
        s.can_price(assets, now),
        s.shares_quote(assets, now) != Some(0nat),
        s.settle_post(&t, owner, assets, now, Ok(minted)),
    ensures
        t.above_base(now),
{
    lemma_distributable_exact(s, now);
    let q = minted@;
    let sc = scale_nat();
    let br = s.base_rate@;
    let d = s.distributable_at(now);
    let ts = s.total_shares@;
    assert(t.locked(now) == s.locked(now));
    if ts == 0 {
        assert(t.fees_accrued@ == s.holdings@ - s.unbonding_total@ - s.locked(now));
        assert(t.distributable_at(now) == assets);
        assert(q == assets * sc / br);
        assert(q * br <= assets * sc) by (nonlinear_arith)
            requires
                br > 0,
                q == assets * sc / br,
        ;
    } else if d == 0 {
        assert(ts * br <= 0);
        assert(br == 0) by (nonlinear_arith)
            requires
                ts > 0,
                ts * br <= 0,
        ;
        assert(false);
    } else {
        assert(t.distributable_at(now) == d + assets);
        assert(q == assets * ts / d);
        assert(q * d <= assets * ts) by (nonlinear_arith)
            requires
                d > 0,
                q == assets * ts / d,
        ;
        assert(q * br * d <= assets * sc * d) by (nonlinear_arith)
            requires
                q * d <= assets * ts,
                ts * br <= d * sc,
        ;
        assert(q * br <= assets * sc) by (nonlinear_arith)
            requires
                d > 0,
                q * br * d <= assets * sc * d,
        ;
        assert((ts + q) * br <= (d + assets) * sc) by (nonlinear_arith)
            requires
                ts * br <= d * sc,
                q * br <= assets * sc,
        ;
    }
}

/// An exit that burns `q` of the shares and takes `a`, priced at the rate and rounded down,
/// out of what is distributable keeps what is left worth at least `base_rate` a share.
proof fn lemma_exit_keeps_above_base(d: nat, ts: nat, br: nat, sc: nat, q: nat, a: nat)
    requires
        ts * br <= d * sc,
        ts > 0,
        q < ts,
        a == q * d / ts,
    ensures
        ((ts - q) as nat) * br <= ((d - a) as nat) * sc,
{
    lemma_sell_keeps_price(q, d, ts, a);
    let da = (d - a) as nat;
    let tq = (ts - q) as nat;
    assert(da * ts * sc >= d * tq * sc) by (nonlinear_arith)
        requires
            da * ts >= d * tq,
    ;
    assert(d * tq * sc >= ts * br * tq) by (nonlinear_arith)
        requires
            ts * br <= d * sc,
    ;
    assert(tq * br * ts <= da * sc * ts) by (nonlinear_arith)
        requires
            da * ts * sc >= d * tq * sc,
            d * tq * sc >= ts * br * tq,
    ;
    assert(tq * br <= da * sc) by (nonlinear_arith)
        requires
            ts > 0,
            tq * br * ts <= da * sc * ts,
    ;
}

/// A redeem keeps the shares that remain worth at least `base_rate`: its payout is priced at
/// the rate, rounded down.
pub proof fn law_redeem_keeps_above_base(
    s: VaultState,
    t: VaultState,
    owner: ActorId,
    shares: U256,
    now: u64,
    p: RedeemPreview,
)
    requires
        s.solvent(now),
        s.above_base(now),
        s.redeem_post(&t, owner, shares, now, Ok(p)),
    ensures
        t.above_base(now),
{
    lemma_distributable_exact(s, now);
    assert(t.locked(now) == s.locked(now));
    assert(!s.empty_at(now));
    if shares@ < s.total_shares@ {
        assert(t.distributable_at(now) == s.distributable_at(now) - p.assets@);
        lemma_exit_keeps_above_base(
            s.distributable_at(now),
            s.total_shares@,
            s.base_rate@,
            scale_nat(),
            shares@,
            p.assets@,
        );
    } else {
        let left = t.total_shares@;
        let br = t.base_rate@;
        assert(left == 0);
        assert(left * br == 0) by (nonlinear_arith)
            requires
                left == 0,
        ;
    }
}

/// An unbond keeps the shares that remain worth at least `base_rate`: the assets it locks are
/// priced at the rate, rounded down.
pub proof fn law_unbond_keeps_above_base(
    s: VaultState,
    t: VaultState,
    owner: ActorId,
    shares: U256,
    now: u64,
    e: Unbond,
)
    requires
        s.solvent(now),
        s.above_base(now),
        s.unbond_post(&t, owner, shares, now, Ok(e)),
    ensures
        t.above_base(now),
{
    lemma_distributable_exact(s, now);
    assert(t.locked(now) == s.locked(now));
    assert(!s.empty_at(now));
    if shares@ < s.total_shares@ {
        assert(t.distributable_at(now) == s.distributable_at(now) - e.assets@);
        lemma_exit_keeps_above_base(
            s.distributable_at(now),
            s.total_shares@,
            s.base_rate@,
            scale_nat(),
            shares@,
            e.assets@,
        );
    } else {
        let left = t.total_shares@;
        let br = t.base_rate@;
        assert(left == 0);
        assert(left * br == 0) by (nonlinear_arith)
            requires
                left == 0,
        ;
    }
}

// --- nobody else is diluted ------------------------------------------------------------------

/// A deposit into a backed vault dilutes nobody: every other holder's claim is worth at least
/// what it was. Left out: a deposit that quotes zero shares (it mints one share anyway).
pub proof fn law_deposit_dilutes_nobody(
    s: VaultState,
    t: VaultState,
    owner: ActorId,
    assets: nat,
    now: u64,
    minted: U256,
    other: Key,
)
    requires
        s.solvent(now),
        s.shares_consistent(),
        s.backed(now),
        s.shares_quote(assets, now) != Some(0nat),
        s.settle_post(&t, owner, assets, now, Ok(minted)),
        other != owner.key(),
    ensures
        amount_of(s.claims(now), other) <= amount_of(t.claims(now), other),
{
    lemma_distributable_exact(s, now);
    let m = amounts(s.balances@);
    assert(m.dom() == s.balances@.dom());
    assert(t.locked(now) == s.locked(now));
    if s.total_shares@ == 0 {
        lemma_amount_le_total(m, other);
        let b = amount_of(m, other);
        assert(b * s.base_rate@ / scale_nat() == 0) by (nonlinear_arith)
            requires
                b == 0,
        ;
    } else {
        let d = s.distributable_at(now);
        let ts = s.total_shares@;
        let q = minted@;
        assert(t.distributable_at(now) == d + assets);
        assert(q == assets * ts / d);
        assert(q * d <= assets * ts) by (nonlinear_arith)
            requires
                d > 0,
                q == assets * ts / d,
        ;
        assert((d + assets) * ts >= d * (ts + q)) by (nonlinear_arith)
            requires
                q * d <= assets * ts,
        ;
        lemma_priced_not_lower(m, amounts(t.balances@), other, d, ts, d + assets, ts + q);
    }
}

/// An exit by `owner` that burns `q` shares and takes `a` out of what is distributable, priced
/// at the rate, dilutes nobody else.
proof fn lemma_exit_dilutes_nobody(s: VaultState, t: VaultState, owner: ActorId, q: nat, a: nat, now: u64, other: Key)
    requires
        s.shares_consistent(),
        q > 0,
        q <= s.balance(owner),
        q <= s.total_shares@,
        a <= s.distributable_at(now),
        a > 0,
        !s.empty_at(now) ==> a == q * s.distributable_at(now) / s.total_shares@,
        amounts(t.balances@) == debited(amounts(s.balances@), owner.key(), q),
        t.total_shares@ == s.total_shares@ - q,
        t.distributable_at(now) == s.distributable_at(now) - a,
        other != owner.key(),
    ensures
        amount_of(s.claims(now), other) <= amount_of(t.claims(now), other),
{
    let m = amounts(s.balances@);
    assert(m.dom() == s.balances@.dom());
    if q < s.total_shares@ {
        let d = s.distributable_at(now);
        let ts = s.total_shares@;
        assert(!s.empty_at(now));
        lemma_sell_keeps_price(q, d, ts, a);
        assert(!t.empty_at(now));
        lemma_priced_not_lower(
            m,
            amounts(t.balances@),
            other,
            d,
            ts,
            (d - a) as nat,
            (ts - q) as nat,
        );
    } else {
        lemma_two_amounts_le_total(m, owner.key(), other);
        let b = amount_of(m, other);
        assert(b == 0);
        assert(b * s.base_rate@ / scale_nat() == 0) by (nonlinear_arith)
            requires
                b == 0,
        ;
        if !s.empty_at(now) {
            assert(b * s.distributable_at(now) / s.total_shares@ == 0) by (nonlinear_arith)
                requires
                    b == 0,
                    s.total_shares@ > 0,
            ;
        }
    }
}

/// A redeem dilutes nobody: every other holder's claim is worth at least what it was.
pub proof fn law_redeem_dilutes_nobody(
    s: VaultState,
    t: VaultState,
    owner: ActorId,
    shares: U256,
    now: u64,
    p: RedeemPreview,
    other: Key,
)
    requires
        s.solvent(now),
        s.shares_consistent(),
        s.redeem_post(&t, owner, shares, now, Ok(p)),
        other != owner.key(),
    ensures
        amount_of(s.claims(now), other) <= amount_of(t.claims(now), other),
{
    lemma_distributable_exact(s, now);
    assert(t.locked(now) == s.locked(now));
    assert(!s.empty_at(now));
    assert(t.distributable_at(now) == s.distributable_at(now) - p.assets@);
    lemma_exit_dilutes_nobody(s, t, owner, shares@, p.assets@, now, other);
}

/// An unbond dilutes nobody: every other holder's claim is worth at least what it was.
pub proof fn law_unbond_dilutes_nobody(
    s: VaultState,
    t: VaultState,
    owner: ActorId,
    shares: U256,
    now: u64,
    e: Unbond,
    other: Key,
)
    requires
        s.solvent(now),
        s.shares_consistent(),
        s.unbond_post(&t, owner, shares, now, Ok(e)),
        other != owner.key(),
    ensures
        amount_of(s.claims(now), other) <= amount_of(t.claims(now), other),
{
    lemma_distributable_exact(s, now);
    assert(t.locked(now) == s.locked(now));
    assert(!s.empty_at(now));
    assert(t.distributable_at(now) == s.distributable_at(now) - e.assets@);
    lemma_exit_dilutes_nobody(s, t, owner, shares@, e.assets@, now, other);
}

// --- sessions ---------------------------------------------------------------------------------

impl VaultState {
    /// `sessions` and `session_keys` are inverses: the key of every active session maps back to
    /// its owner, and every bound key is the key of the active session of the owner it maps to.
    /// So a key serves one owner.
    pub open spec fn sessions_consistent(&self) -> bool {
        let sv = session_views(self.sessions@);
        let ks = self.session_keys@;
        &&& forall|o: Key| #[trigger]
            sv.contains_key(o) ==> ks.contains_key(sv[o].0.key()) && ks[sv[o].0.key()].key() == o
        &&& forall|k: Key| #[trigger]
            ks.contains_key(k) ==> sv.contains_key(ks[k].key()) && sv[ks[k].key()].0.key() == k
    }
}

/// Accepting a session keeps `sessions` and `session_keys` inverses of each other.
pub proof fn law_accept_keeps_sessions(
    s: VaultState,
    t: VaultState,
    key: ActorId,
    owner: ActorId,
    now: u64,
    r: Result<Session, VaultError>,
)
    requires
        s.sessions_consistent(),
        s.accept_post(&t, key, owner, now, r),
    ensures
        t.sessions_consistent(),
{
    if r is Ok {
        let p = s.pending_sessions@[owner.key()];
        let sv = session_views(s.sessions@);
        let ks = s.session_keys@;
        let k1 = s.keys_after_drop(owner);
        let sv2 = session_views(t.sessions@);
        let ks2 = t.session_keys@;
        assert(p@.0 == key);
        assert forall|o: Key| #[trigger] sv2.contains_key(o) implies ks2.contains_key(
            sv2[o].0.key(),
        ) && ks2[sv2[o].0.key()].key() == o by {
            if o != owner.key() {
                assert(sv.contains_key(o));
                let ko = sv[o].0.key();
                assert(ks[ko].key() == o);
                if sv.contains_key(owner.key()) {
                    assert(ks[sv[owner.key()].0.key()].key() == owner.key());
                    assert(ko != sv[owner.key()].0.key());
                }
                assert(k1.contains_key(ko) && k1[ko].key() == o);
                if ko == key.key() {
                    assert(k1[key.key()].key() == o);
                    lemma_key_injective(k1[key.key()], owner);
                }
            }
        }
        assert forall|k: Key| #[trigger] ks2.contains_key(k) implies sv2.contains_key(
            ks2[k].key(),
        ) && sv2[ks2[k].key()].0.key() == k by {
            if k != key.key() {
                assert(k1.contains_key(k));
                assert(ks.contains_key(k));
                let o = ks[k].key();
                assert(sv.contains_key(o) && sv[o].0.key() == k);
                if o == owner.key() {
                    assert(!k1.contains_key(sv[owner.key()].0.key()));
                }
                lemma_key_injective(ks[k], owner);
                if k1.contains_key(key.key()) && k1[key.key()] != owner {
                    let other = k1[key.key()].key();
                    assert(sv[other].0.key() == key.key());
                }
            }
        }
    }
}

/// Revoking a session keeps `sessions` and `session_keys` inverses of each other.
pub proof fn law_revoke_keeps_sessions(s: VaultState, t: VaultState, owner: ActorId, r: bool)
    requires
        s.sessions_consistent(),
        s.revoke_post(&t, owner, r),
    ensures
        t.sessions_consistent(),
{
    let sv = session_views(s.sessions@);
    let ks = s.session_keys@;
    let sv2 = session_views(t.sessions@);
    let ks2 = t.session_keys@;
    assert forall|o: Key| #[trigger] sv2.contains_key(o) implies ks2.contains_key(
        sv2[o].0.key(),
    ) && ks2[sv2[o].0.key()].key() == o by {
        if sv.contains_key(owner.key()) {
            assert(ks[sv[owner.key()].0.key()].key() == owner.key());
        }
    }
    assert forall|k: Key| #[trigger] ks2.contains_key(k) implies sv2.contains_key(ks2[k].key())
        && sv2[ks2[k].key()].0.key() == k by {
        assert(ks.contains_key(k));
        if ks[k].key() == owner.key() {
            assert(sv[owner.key()].0.key() == k);
        }
    }
}

// --- unbonds: the total locked is what the entries owe ---------------------------------------

impl VaultState {
    /// `unbonding_total` is the sum of the assets of every entry; each owner's entries are
    /// non-empty, strictly ordered by id, and below the next id.
    pub open spec fn unbonds_consistent(&self) -> bool {
        &&& book_ok(lists(self.unbonds@), self.next_unbond_id)
        &&& self.unbonding_total@ == total(owed(lists(self.unbonds@)))
    }
}

/// A timed exit records an entry whose assets are added to the total locked, under the next
/// id.
pub proof fn law_unbond_keeps_book(
    s: VaultState,
    t: VaultState,
    owner: ActorId,
    shares: U256,
    now: u64,
    r: Result<Unbond, VaultError>,
)
    requires
        s.unbonds_consistent(),
        s.unbond_post(&t, owner, shares, now, r),
    ensures
        t.unbonds_consistent(),
{
    if r is Ok {
        let e = r->Ok_0;
        let m = lists(s.unbonds@);
        let l = list_of(m, owner.key());
        let m2 = lists(t.unbonds@);
        lemma_assets_push(l, e);
        assert(owed(m).dom() == m.dom());
        lemma_total_insert(owed(m), owner.key(), assets_of(l.push(e)));
        assert(owed(m2) =~= owed(m).insert(owner.key(), assets_of(l.push(e))));
        assert(amount_of(owed(m), owner.key()) == assets_of(l));
        assert forall|k: Key| #[trigger] m2.contains_key(k) implies {
            &&& m2[k].len() > 0
            &&& ids_ascending(m2[k])
            &&& forall|i: int| 0 <= i < m2[k].len() ==> #[trigger] m2[k][i].id < t.next_unbond_id
        } by {
            if k == owner.key() {
                assert forall|i: int, j: int| 0 <= i < j < m2[k].len() implies m2[k][i].id
                    < m2[k][j].id by {
                    if j == l.len() {
                        assert(m2[k][i] == l[i]);
                    }
                }
            }
        }
    }
}

/// Taking an entry for its claim removes exactly its assets from the total locked.
pub proof fn law_take_keeps_book(
    s: VaultState,
    t: VaultState,
    owner: ActorId,
    id: u64,
    now: u64,
    r: Result<Unbond, VaultError>,
)
    requires
        s.unbonds_consistent(),
        s.take_post(&t, owner, id, now, r),
    ensures
        t.unbonds_consistent(),
{
    let m = lists(s.unbonds@);
    let l = list_of(m, owner.key());
    if !s.paused && has_id(l, id) {
        let i = lemma_first_position(l, id);
        let e = l[i];
        assert(m.contains_key(owner.key()));
        lemma_assets_remove(l, i);
        assert(owed(m).dom() == m.dom());
        lemma_amount_le_total(owed(m), owner.key());
        let m2 = lists(t.unbonds@);
        if r is Ok && l.len() == 1 {
            assert(l.remove(i).len() == 0);
            lemma_total_remove(owed(m), owner.key());
            assert(owed(m2) =~= owed(m).remove(owner.key()));
        } else if r is Ok {
            lemma_total_insert(owed(m), owner.key(), assets_of(l.remove(i)));
            assert(owed(m2) =~= owed(m).insert(owner.key(), assets_of(l.remove(i))));
            assert forall|k: Key| #[trigger] m2.contains_key(k) implies {
                &&& m2[k].len() > 0
                &&& ids_ascending(m2[k])
                &&& forall|x: int| 0 <= x < m2[k].len() ==> #[trigger] m2[k][x].id
                    < t.next_unbond_id
            } by {
                if k == owner.key() {
                    let l2 = l.remove(i);
                    assert forall|x: int| 0 <= x < l2.len() implies #[trigger] l2[x] == (if x < i {
                        l[x]
                    } else {
                        l[x + 1]
                    }) by {}
                }
            }
        }
    }
}

/// The position of the entry with `id` in a strictly ordered list that holds one.
proof fn lemma_first_position(l: Seq<Unbond>, id: u64) -> (i: int)
    requires
        ids_ascending(l),
        has_id(l, id),
    ensures
        first_with(l, id, i),
{
    let i = choose|i: int| 0 <= i < l.len() && l[i].id == id;
    assert forall|j: int| 0 <= j < i implies l[j].id != id by {
        assert(l[j].id < l[i].id);
    }
    i
}

/// Taking an entry for its claim keeps the vault solvent, and its rate and backing where they
/// were: it pays assets that were locked for it.
pub proof fn law_take_keeps_solvent(
    s: VaultState,
    t: VaultState,
    owner: ActorId,
    id: u64,
    now: u64,
    r: Result<Unbond, VaultError>,
)
    requires
        s.solvent(now),
        s.unbonds_consistent(),
        s.take_post(&t, owner, id, now, r),
    ensures
        t.solvent(now),
        t.rate(now) == s.rate(now),
        t.backed(now) == s.backed(now),
        t.above_base(now) == s.above_base(now),
{
    let m = lists(s.unbonds@);
    let l = list_of(m, owner.key());
    if !s.paused && has_id(l, id) {
        let i = lemma_first_position(l, id);
        assert(m.contains_key(owner.key()));
        lemma_assets_remove(l, i);
        assert(owed(m).dom() == m.dom());
        lemma_amount_le_total(owed(m), owner.key());
        assert(amount_of(owed(m), owner.key()) == assets_of(l));
    }
}

/// Putting back an entry that was just taken restores the vault exactly: a claim whose payout
/// failed leaves no trace.
pub proof fn law_take_then_restore(
    s: VaultState,
    t: VaultState,
    u: VaultState,
    owner: ActorId,
    id: u64,
    now: u64,
    e: Unbond,
)
    requires
        s.unbonds_consistent(),
        s.take_post(&t, owner, id, now, Ok(e)),
        t.restore_post(&u, owner, e),
    ensures
        u.same_state(&s),
{
    broadcast use vstd::seq_lib::group_to_multiset_ensures;

    let m = lists(s.unbonds@);
    let l = list_of(m, owner.key());
    let i = lemma_first_position(l, id);
    assert(m.contains_key(owner.key()));
    lemma_assets_remove(l, i);
    assert(owed(m).dom() == m.dom());
    lemma_amount_le_total(owed(m), owner.key());
    assert(amount_of(owed(m), owner.key()) == assets_of(l));
    let m2 = lists(t.unbonds@);
    let l2 = list_of(m2, owner.key());
    assert(l2 == l.remove(i));
    assert(l2.push(e).to_multiset() =~= l.to_multiset());
    let m3 = lists(u.unbonds@);
    lemma_sorted_same_entries(l, m3[owner.key()]);
    assert(m3 =~= m) by {
        assert forall|k: Key| m3.contains_key(k) <==> m.contains_key(k) by {
            if k != owner.key() {
                assert(m3.remove(owner.key()).contains_key(k) == m3.contains_key(k));
            }
        }
        assert forall|k: Key| m3.contains_key(k) implies m3[k] == m[k] by {
            if k != owner.key() {
                assert(m3.remove(owner.key())[k] == m3[k]);
            }
        }
    }
    lemma_view_injective(u.unbonding_total, s.unbonding_total);
    lemma_view_injective(u.holdings, s.holdings);
}

/// Putting the fees back after their payout failed restores the vault exactly.
pub proof fn law_fees_revert_restores(s: VaultState, t: VaultState, u: VaultState, amount: U256)
    requires
        s.take_fees_post(&t, Ok(amount)),
        t.restore_fees_post(&u, amount),
    ensures
        u.same_state(&s),
{
    lemma_view_injective(u.holdings, s.holdings);
    lemma_view_injective(u.fees_accrued, s.fees_accrued);
}

} // verus!
