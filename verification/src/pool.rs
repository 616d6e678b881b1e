//! The kVARA pool: liquid staking for native VARA.
//!
//! The pool is itself the receipt token: shares (kVARA) are a plain fungible book, and the
//! pool moves VARA in and out against them. The rate (VARA per kVARA, scaled by `1e18`) is
//! `distributable / total_shares`, where `distributable` is the reserve minus collected fees,
//! minus VARA locked for unbonds, minus rewards still vesting. Quotes carry a virtual share and
//! asset offset (`VIRTUAL_SHARES` priced at `base_rate`), so an empty pool quotes exactly
//! `base_rate` and nobody can inflate the price per share by emptying the pool and donating.
//!
//! Every function here is a pure transition of `PoolState`; the program around it moves the
//! VARA and emits the events.
use crate::actor::{ActorId, Key};
use crate::ledger::{
    lemma_total_empty, amount_in, amount_of, amounts, credit_in, credited, debit_in, debited, lemma_keys_ordered,
    spend_in, store_amount, with_amount, Allowances, Balances,
};
use crate::u256::{max_nat, min_nat, sat_add, sat_mul, sat_sub, u256_max, U256};
use crate::unbonds::{
    owed, entries_of, first_with, has_id, list_of, lists, position_of, push_entry, restore_entry, sorted_by_id, take_at,
    Unbond, UnbondBook,
};
use crate::vesting::{
    funded_length, funded_tranche_length, locked_at, locked_spec, ms_of, sat_add_u64, secs_to_ms,
};
use std::collections::BTreeMap;
use vstd::prelude::*;

verus! {

broadcast use vstd::std_specs::btree::group_btree_axioms, crate::u256::lemma_u256_bounded;

pub const BPS: u64 = 10_000;

pub const YEAR_SECS: u64 = 31_536_000;

/// Smallest payout: 1 VARA (12 decimals). A value transfer that would leave the recipient
/// below the existential deposit is dropped, so no payout may be smaller.
pub const MIN_PAYOUT: u128 = 1_000_000_000_000;

/// Smallest stake: 2 VARA, so a whole position clears the payout floor after the instant fee.
pub const MIN_STAKE: u128 = 2_000_000_000_000;

/// VARA the pool keeps on its own account, outside the reserve, to pay for its messages.
pub const KEEP_VARA: u128 = 1_000_000_000_000;

pub const MAX_FEE_BPS: u32 = 1_000;

/// Unbonds mature within a year at most.
pub const MAX_UNBOND_SECS: u64 = 365 * 86_400;

/// Rewards vest over at least an hour and at most a year.
pub const MIN_VESTING_SECS: u64 = 3_600;

pub const MAX_VESTING_SECS: u64 = 365 * 86_400;

/// Longest session a user may register.
pub const MAX_SESSION_SECS: u64 = 30 * 86_400;

/// The rate scale, 1e18.
pub open spec fn scale_nat() -> nat {
    1_000_000_000_000_000_000
}

/// Virtual shares priced at `base_rate`, added to every quote.
pub open spec fn virtual_shares_nat() -> nat {
    1_000_000
}

/// The rate scale, 1e18.
pub fn scale() -> (r: U256)
    ensures
        r@ == scale_nat(),
{
    U256::from_u64(1_000_000_000_000_000_000)
}

/// The virtual shares of every quote.
pub fn virtual_shares() -> (r: U256)
    ensures
        r@ == virtual_shares_nat(),
{
    U256::from_u64(1_000_000)
}

#[derive(Clone, Debug, PartialEq, Eq)]
pub enum PoolError {
    Paused,
    ZeroAddress,
    ZeroAmount,
    BelowMinimum { min: U256 },
    InsufficientShares,
    InsufficientBalance,
    InsufficientAllowance,
    /// The pool's distributable VARA cannot cover this payout; nothing changed.
    InsufficientReserve { available: U256 },
    Unauthorized,
    Overflow,
    BadConfig,
    UnbondNotFound,
    UnbondNotReady { claimable_at: u64 },
    /// The runtime refused the value transfer; the position was restored.
    TransferFailed(String),
    /// The session key acting for the owner has expired.
    SessionExpired,
    /// The session key acting for the owner may not perform this action.
    SessionNotAllowed,
    /// Session key, duration or action list is invalid, or no matching proposal exists.
    BadSession,
}

/// Actions a session key may perform for its owner.
#[derive(Clone, Copy, Debug, PartialEq, Eq, Structural)]
pub enum SessionAction {
    Stake,
    Unstake,
    Unbond,
    Claim,
}

/// A session key registered by an owner: messages signed by `key` act for the owner until
/// `expires_at`. A session is proposed by the owner and takes effect once the key accepts it.
#[derive(Clone, Debug, PartialEq, Eq)]
pub struct Session {
    pub key: ActorId,
    pub expires_at: u64,
    pub actions: Vec<SessionAction>,
}

impl View for Session {
    type V = (ActorId, u64, Seq<SessionAction>);

    open spec fn view(&self) -> (ActorId, u64, Seq<SessionAction>) {
        (self.key, self.expires_at, self.actions@)
    }
}

impl Session {
    /// A copy with the same key, expiry and actions.
    pub fn duplicate(&self) -> (r: Session)
        ensures
            r@ == self@,
    {
        let actions = self.actions.clone();
        assert(actions@ =~= self.actions@);
        Session { key: self.key, expires_at: self.expires_at, actions }
    }

    /// Whether the session allows `action`.
    pub fn allows(&self, action: SessionAction) -> (r: bool)
        ensures
            r == self.actions@.contains(action),
    {
        let mut i: usize = 0;
        while i < self.actions.len()
            invariant
                i <= self.actions@.len(),
                forall|j: int| 0 <= j < i ==> self.actions@[j] != action,
            decreases self.actions@.len() - i,
        {
            if self.actions[i] == action {
                assert(self.actions@[i as int] == action);
                return true;
            }
            i = i + 1;
        }
        false
    }
}

/// The sessions of a book, by their contents.
pub open spec fn session_views(m: Map<Key, Session>) -> Map<Key, (ActorId, u64, Seq<SessionAction>)> {
    m.map_values(|s: Session| s@)
}

#[derive(Clone, Copy, Debug, PartialEq, Eq, Structural)]
pub struct UnstakePreview {
    pub assets: U256,
    pub fee: U256,
    pub net: U256,
}

#[derive(Clone, Copy, Debug, PartialEq, Eq, Structural)]
pub struct Position {
    pub shares: U256,
    pub assets: U256,
}

#[derive(Clone, Debug, PartialEq, Eq)]
pub struct PoolInfo {
    pub admin: ActorId,
    pub name: String,
    pub symbol: String,
    pub decimals: u8,
    /// VARA per kVARA scaled by 1e18: distributable VARA over shares, now.
    pub rate: U256,
    /// Annualised release rate of the rewards currently vesting, over distributable VARA.
    pub apy_bps: u32,
    pub instant_fee_bps: u32,
    pub unbond_period_secs: u64,
    pub vesting_period_secs: u64,
    pub total_shares: U256,
    /// VARA owed to share holders: the distributable amount.
    pub total_assets: U256,
    /// VARA the pool holds (stakes, rewards, fees, unbonds).
    pub reserve: U256,
    /// Reserve minus fees, unbonds and rewards still vesting.
    pub distributable: U256,
    /// Rewards not yet released.
    pub locked_rewards: U256,
    /// When the current tranche is fully vested (0 when nothing is vesting).
    pub vesting_ends_at: u64,
    pub fees_accrued: U256,
    pub unbonding_total: U256,
    pub min_stake: U256,
    pub paused: bool,
}

pub struct PoolState {
    pub admin: ActorId,
    pub name: String,
    pub symbol: String,
    pub decimals: u8,
    pub total_shares: U256,
    pub balances: Balances,
    pub allowances: Allowances,
    /// Rate used while the pool holds no shares: the constructor's initial rate, then the last
    /// rate seen before the pool emptied.
    pub base_rate: U256,
    pub instant_fee_bps: u32,
    pub unbond_period_ms: u64,
    pub vesting_period_ms: u64,
    /// VARA held for payouts. Plain transfers to the program are invisible here.
    pub reserve: U256,
    pub fees_accrued: U256,
    pub unbonding_total: U256,
    /// The rewards tranche currently vesting: `vest_amount` is released linearly between
    /// `vest_start_ms` and `vest_end_ms`.
    pub vest_amount: U256,
    pub vest_start_ms: u64,
    pub vest_end_ms: u64,
    pub paused: bool,
    pub unbonds: UnbondBook,
    pub next_unbond_id: u64,
    /// owner -> active session
    pub sessions: BTreeMap<Key, Session>,
    /// session key -> owner (active sessions only)
    pub session_keys: BTreeMap<Key, ActorId>,
    /// owner -> proposed session, waiting for the key to accept
    pub pending_sessions: BTreeMap<Key, Session>,
}

// --- the model -----------------------------------------------------------------------------

impl PoolState {
    pub open spec fn same_config(&self, o: &PoolState) -> bool {
        &&& self.admin == o.admin
        &&& self.name == o.name
        &&& self.symbol == o.symbol
        &&& self.decimals == o.decimals
        &&& self.instant_fee_bps == o.instant_fee_bps
        &&& self.unbond_period_ms == o.unbond_period_ms
        &&& self.vesting_period_ms == o.vesting_period_ms
        &&& self.paused == o.paused
    }

    pub open spec fn same_shares(&self, o: &PoolState) -> bool {
        &&& self.total_shares == o.total_shares
        &&& amounts(self.balances@) == amounts(o.balances@)
        &&& amounts(self.allowances@) == amounts(o.allowances@)
        &&& self.base_rate == o.base_rate
    }

    pub open spec fn same_funds(&self, o: &PoolState) -> bool {
        &&& self.reserve == o.reserve
        &&& self.fees_accrued == o.fees_accrued
        &&& self.unbonding_total == o.unbonding_total
    }

    pub open spec fn same_vesting(&self, o: &PoolState) -> bool {
        &&& self.vest_amount == o.vest_amount
        &&& self.vest_start_ms == o.vest_start_ms
        &&& self.vest_end_ms == o.vest_end_ms
    }

    pub open spec fn same_unbonds(&self, o: &PoolState) -> bool {
        &&& lists(self.unbonds@) == lists(o.unbonds@)
        &&& self.next_unbond_id == o.next_unbond_id
    }

    pub open spec fn same_sessions(&self, o: &PoolState) -> bool {
        &&& session_views(self.sessions@) == session_views(o.sessions@)
        &&& self.session_keys@ == o.session_keys@
        &&& session_views(self.pending_sessions@) == session_views(o.pending_sessions@)
    }

    /// Every field holds what it held in `o` (books compared by their contents).
    pub open spec fn same_state(&self, o: &PoolState) -> bool {
        &&& self.same_config(o)
        &&& self.same_shares(o)
        &&& self.same_funds(o)
        &&& self.same_vesting(o)
        &&& self.same_unbonds(o)
        &&& self.same_sessions(o)
    }

    /// Shares held by `who`.
    pub open spec fn balance(&self, who: ActorId) -> nat {
        amount_of(amounts(self.balances@), who.key())
    }

    /// What `spender` may still move of `owner`'s shares.
    pub open spec fn allowance_of(&self, owner: ActorId, spender: ActorId) -> nat {
        amount_of(amounts(self.allowances@), (owner.key(), spender.key()))
    }

    /// Rewards not yet released at `now`.
    pub open spec fn locked(&self, now: u64) -> nat {
        locked_spec(self.vest_amount@, self.vest_start_ms, self.vest_end_ms, now)
    }

    /// VARA that belongs to share holders at `now`.
    pub open spec fn distributable_at(&self, now: u64) -> nat {
        sat_sub(
            sat_sub(sat_sub(self.reserve@, self.fees_accrued@), self.unbonding_total@),
            self.locked(now),
        )
    }

    /// The virtual shares priced at `base_rate`, rounded up.
    pub open spec fn virtual_assets(&self) -> nat {
        ((sat_mul(virtual_shares_nat(), self.base_rate@) + scale_nat() - 1) as nat) / scale_nat()
    }

    /// The pool can quote: the virtual assets can be computed without overflow and are
    /// positive.
    pub open spec fn quotable(&self) -> bool {
        &&& self.base_rate@ > 0
        &&& sat_mul(virtual_shares_nat(), self.base_rate@) + scale_nat() <= u256_max()
    }

    /// The assets side of every quote: what is distributable (nothing while no share is
    /// outstanding) plus the virtual assets.
    pub open spec fn basis_assets(&self, now: u64) -> nat {
        sat_add(
            if self.total_shares@ == 0 { 0 } else { self.distributable_at(now) },
            self.virtual_assets(),
        )
    }

    /// The shares side of every quote: the shares outstanding plus the virtual shares.
    pub open spec fn basis_shares(&self) -> nat {
        sat_add(self.total_shares@, virtual_shares_nat())
    }

    /// VARA per kVARA scaled by 1e18.
    pub open spec fn rate(&self, now: u64) -> nat {
        sat_mul(self.basis_assets(now), scale_nat()) / self.basis_shares()
    }

    /// Shares `assets` buy at `now`, rounded down; `None` when the product overflows.
    pub open spec fn shares_quote(&self, assets: nat, now: u64) -> Option<nat> {
        if assets * self.basis_shares() > u256_max() {
            None
        } else {
            Some(assets * self.basis_shares() / self.basis_assets(now))
        }
    }

    /// VARA `shares` are worth at `now`, rounded down; `None` when the product overflows.
    pub open spec fn assets_quote(&self, shares: nat, now: u64) -> Option<nat> {
        if shares * self.basis_assets(now) > u256_max() {
            None
        } else {
            Some(shares * self.basis_assets(now) / self.basis_shares())
        }
    }

    /// The instant exit fee on `assets`.
    pub open spec fn fee_on(&self, assets: nat) -> nat {
        sat_mul(assets, self.instant_fee_bps as nat) / (BPS as nat)
    }

    /// The instant fee never exceeds what it is taken from, for any quote at `now`.
    pub open spec fn fee_fits(&self, shares: nat, now: u64) -> bool {
        self.assets_quote(shares, now) matches Some(a) ==> self.fee_on(a) <= a
    }
}

// --- construction and quotes ---------------------------------------------------------------

impl PoolState {
    /// A fresh pool. The fee, unbond period and vesting period are clamped to their bounds; a
    /// rate below 1.0 starts the pool at 1.0.
    pub fn new(
        admin: ActorId,
        name: String,
        symbol: String,
        decimals: u8,
        instant_fee_bps: u32,
        unbond_period_secs: u64,
        vesting_period_secs: u64,
        initial_rate: U256,
    ) -> (r: PoolState)
        ensures
            r.admin == admin,
            r.name == name,
            r.symbol == symbol,
            r.decimals == decimals,
            r.total_shares@ == 0,
            r.balances@ == Map::<Key, U256>::empty(),
            r.allowances@ == Map::<(Key, Key), U256>::empty(),
            r.base_rate@ == max_nat(initial_rate@, scale_nat()),
            r.instant_fee_bps == min_nat(instant_fee_bps as nat, MAX_FEE_BPS as nat),
            r.unbond_period_ms == ms_of(min_nat(unbond_period_secs as nat, MAX_UNBOND_SECS as nat) as u64),
            r.vesting_period_ms == ms_of(
                max_nat(
                    min_nat(vesting_period_secs as nat, MAX_VESTING_SECS as nat),
                    MIN_VESTING_SECS as nat,
                ) as u64,
            ),
            r.reserve@ == 0,
            r.fees_accrued@ == 0,
            r.unbonding_total@ == 0,
            r.vest_amount@ == 0,
            r.vest_start_ms == 0,
            r.vest_end_ms == 0,
            !r.paused,
            r.unbonds@ == Map::<Key, Vec<Unbond>>::empty(),
            r.next_unbond_id == 1,
            r.sessions@ == Map::<Key, Session>::empty(),
            r.session_keys@ == Map::<Key, ActorId>::empty(),
            r.pending_sessions@ == Map::<Key, Session>::empty(),
            r.shares_consistent(),
            r.unbonds_consistent(),
            r.sessions_consistent(),
            forall|now: u64| #[trigger] r.solvent(now),
            forall|now: u64| #[trigger] r.backed(now),
    {
        let sc = scale();
        let base_rate = if initial_rate.lt(&sc) { sc } else { initial_rate };
        let fee = if instant_fee_bps < MAX_FEE_BPS { instant_fee_bps } else { MAX_FEE_BPS };
        let unbond = if unbond_period_secs < MAX_UNBOND_SECS { unbond_period_secs } else { MAX_UNBOND_SECS };
        let vesting = if vesting_period_secs < MIN_VESTING_SECS {
            MIN_VESTING_SECS
        } else if vesting_period_secs > MAX_VESTING_SECS {
            MAX_VESTING_SECS
        } else {
            vesting_period_secs
        };
        let r = PoolState {
            admin,
            name,
            symbol,
            decimals,
            total_shares: U256::zero(),
            balances: BTreeMap::new(),
            allowances: BTreeMap::new(),
            base_rate,
            instant_fee_bps: fee,
            unbond_period_ms: secs_to_ms(unbond),
            vesting_period_ms: secs_to_ms(vesting),
            reserve: U256::zero(),
            fees_accrued: U256::zero(),
            unbonding_total: U256::zero(),
            vest_amount: U256::zero(),
            vest_start_ms: 0,
            vest_end_ms: 0,
            paused: false,
            unbonds: BTreeMap::new(),
            next_unbond_id: 1,
            sessions: BTreeMap::new(),
            session_keys: BTreeMap::new(),
            pending_sessions: BTreeMap::new(),
        };
        proof {
            lemma_total_empty::<Key>();
            assert(amounts(r.balances@) =~= Map::<Key, nat>::empty());
            assert(owed(lists(r.unbonds@)) =~= Map::<Key, nat>::empty());
            assert(lists(r.unbonds@) =~= Map::<Key, Seq<Unbond>>::empty());
        }
        r
    }

    /// Rewards of the current tranche not yet released at `now_ms`.
    pub fn locked_rewards(&self, now_ms: u64) -> (r: U256)
        ensures
            r@ == self.locked(now_ms),
    {
        locked_at(self.vest_amount, self.vest_start_ms, self.vest_end_ms, now_ms)
    }

    /// VARA that belongs to share holders right now.
    pub fn distributable(&self, now_ms: u64) -> (r: U256)
        ensures
            r@ == self.distributable_at(now_ms),
    {
        self.reserve.saturating_sub(self.fees_accrued).saturating_sub(self.unbonding_total).saturating_sub(
            self.locked_rewards(now_ms),
        )
    }

    /// The quote basis: (assets, shares) including the virtual pair.
    fn basis(&self, now_ms: u64) -> (r: (U256, U256))
        requires
            self.quotable(),
        ensures
            r.0@ == self.basis_assets(now_ms),
            r.1@ == self.basis_shares(),
            r.0@ > 0,
            r.1@ > 0,
    {
        let sc = scale();
        let scaled = virtual_shares().saturating_mul(self.base_rate);
        let virtual_assets = scaled.add(sc).sub(U256::one()).div(sc);
        let assets = if self.total_shares.is_zero() {
            U256::zero()
        } else {
            self.distributable(now_ms)
        };
        (assets.saturating_add(virtual_assets), self.total_shares.saturating_add(virtual_shares()))
    }

    /// VARA per kVARA scaled by 1e18 at `now_ms`.
    pub fn rate_at(&self, now_ms: u64) -> (r: U256)
        requires
            self.quotable(),
        ensures
            r@ == self.rate(now_ms),
    {
        let (assets, shares) = self.basis(now_ms);
        assets.saturating_mul(scale()).div(shares)
    }

    /// Shares minted for `assets` at `now_ms` (rounded down, in the pool's favour).
    pub fn shares_for(&self, assets: U256, now_ms: u64) -> (r: Result<U256, PoolError>)
        requires
            self.quotable(),
        ensures
            match self.shares_quote(assets@, now_ms) {
                Some(q) => r matches Ok(v) && v@ == q,
                None => r == Err::<U256, PoolError>(PoolError::Overflow),
            },
    {
        let (a, s) = self.basis(now_ms);
        match assets.checked_mul(s) {
            Some(v) => Ok(v.div(a)),
            None => Err(PoolError::Overflow),
        }
    }

    /// VARA owed for `shares` at `now_ms` (rounded down, in the pool's favour).
    pub fn assets_for(&self, shares: U256, now_ms: u64) -> (r: Result<U256, PoolError>)
        requires
            self.quotable(),
        ensures
            match self.assets_quote(shares@, now_ms) {
                Some(q) => r matches Ok(v) && v@ == q,
                None => r == Err::<U256, PoolError>(PoolError::Overflow),
            },
    {
        let (a, s) = self.basis(now_ms);
        match shares.checked_mul(a) {
            Some(v) => Ok(v.div(s)),
            None => Err(PoolError::Overflow),
        }
    }

    /// What share holders own: zero while no share is outstanding.
    pub fn total_assets(&self, now_ms: u64) -> (r: U256)
        ensures
            r@ == (if self.total_shares@ == 0 { 0 } else { self.distributable_at(now_ms) }),
    {
        if self.total_shares.is_zero() {
            U256::zero()
        } else {
            self.distributable(now_ms)
        }
    }

    /// Whether `apy_bps` reports zero without looking at the tranche's length.
    pub open spec fn apy_is_zero(&self, now: u64) -> bool {
        self.vest_amount@ == 0 || now >= self.vest_end_ms || self.distributable_at(now) == 0
            || self.total_shares@ == 0
    }

    /// The annualised release rate of the running tranche, in bps, before it is capped.
    pub open spec fn apy_raw(&self, now: u64) -> nat {
        sat_mul(sat_mul(self.vest_amount@, (YEAR_SECS * 1000) as nat), BPS as nat) / sat_mul(
            (self.vest_end_ms - self.vest_start_ms) as nat,
            self.distributable_at(now),
        )
    }

    pub open spec fn apy(&self, now: u64) -> u32 {
        if self.apy_is_zero(now) {
            0
        } else if self.apy_raw(now) > u32::MAX {
            u32::MAX
        } else {
            self.apy_raw(now) as u32
        }
    }

    /// Annualised release rate of the vesting tranche over distributable VARA, in bps.
    pub fn apy_bps(&self, now_ms: u64) -> (r: u32)
        requires
            self.apy_is_zero(now_ms) || self.vest_start_ms < self.vest_end_ms,
        ensures
            r == self.apy(now_ms),
    {
        let d = self.distributable(now_ms);
        if self.vest_amount.is_zero() || now_ms >= self.vest_end_ms || d.is_zero()
            || self.total_shares.is_zero() {
            return 0;
        }
        let span = U256::from_u64(self.vest_end_ms - self.vest_start_ms);
        let den = span.saturating_mul(d);
        proof {
            assert(span@ >= 1 && d@ >= 1);
            assert(span@ * d@ >= 1) by (nonlinear_arith)
                requires
                    span@ >= 1,
                    d@ >= 1,
            ;
        }
        let bps = self.vest_amount.saturating_mul(U256::from_u64(YEAR_SECS * 1000)).saturating_mul(
            U256::from_u64(BPS),
        ).div(den);
        if bps.gt(&U256::from_u32(u32::MAX)) {
            u32::MAX
        } else {
            bps.low_u32()
        }
    }

    /// Whether the pool can quote at all (see `quotable`).
    pub fn can_quote(&self) -> (r: bool)
        ensures
            r == self.quotable(),
    {
        if self.base_rate.is_zero() {
            return false;
        }
        match virtual_shares().checked_mul(self.base_rate) {
            Some(v) => match v.checked_add(scale()) {
                Some(_) => true,
                None => false,
            },
            None => false,
        }
    }

    /// Whether the instant fee on an exit of `shares` at `now_ms` stays within its assets.
    pub fn fee_fits_at(&self, shares: U256, now_ms: u64) -> (r: bool)
        requires
            self.quotable(),
        ensures
            r == self.fee_fits(shares@, now_ms),
    {
        match self.assets_for(shares, now_ms) {
            Ok(a) => a.saturating_mul(U256::from_u32(self.instant_fee_bps)).div(U256::from_u64(BPS)).le(&a),
            Err(_) => true,
        }
    }

    /// Whether `apy_bps` can compute its ratio at `now_ms`.
    pub fn apy_defined(&self, now_ms: u64) -> (r: bool)
        ensures
            r == (self.apy_is_zero(now_ms) || self.vest_start_ms < self.vest_end_ms),
    {
        self.vest_amount.is_zero() || now_ms >= self.vest_end_ms || self.distributable(now_ms).is_zero()
            || self.total_shares.is_zero() || self.vest_start_ms < self.vest_end_ms
    }

    /// Assets, fee and net payout of an instant exit of `shares` at `now_ms`.
    pub fn preview_unstake(&self, shares: U256, now_ms: u64) -> (r: Result<UnstakePreview, PoolError>)
        requires
            self.quotable(),
            self.fee_fits(shares@, now_ms),
        ensures
            match self.assets_quote(shares@, now_ms) {
                Some(a) => r matches Ok(p) && p.assets@ == a && p.fee@ == self.fee_on(a) && p.net@ == a
                    - self.fee_on(a),
                None => r == Err::<UnstakePreview, PoolError>(PoolError::Overflow),
            },
    {
        let assets = match self.assets_for(shares, now_ms) {
            Ok(a) => a,
            Err(e) => return Err(e),
        };
        let fee = assets.saturating_mul(U256::from_u32(self.instant_fee_bps)).div(U256::from_u64(BPS));
        Ok(UnstakePreview { assets, fee, net: assets.sub(fee) })
    }
}

// --- the receipt token ---------------------------------------------------------------------

impl PoolState {
    /// Shares held by `who`.
    pub fn balance_of(&self, who: &ActorId) -> (r: U256)
        ensures
            r@ == self.balance(*who),
    {
        proof {
            lemma_keys_ordered();
        }
        amount_in(&self.balances, &who.key())
    }

    /// What `spender` may still move of `owner`'s shares.
    pub fn allowance(&self, owner: &ActorId, spender: &ActorId) -> (r: U256)
        ensures
            r@ == self.allowance_of(*owner, *spender),
    {
        proof {
            lemma_keys_ordered();
        }
        amount_in(&self.allowances, &(owner.key(), spender.key()))
    }

    fn ensure_live(&self) -> (r: Result<(), PoolError>)
        ensures
            self.paused ==> r == Err::<(), PoolError>(PoolError::Paused),
            !self.paused ==> r is Ok,
    {
        if self.paused {
            Err(PoolError::Paused)
        } else {
            Ok(())
        }
    }

    /// Move `value` shares from `from` to `to`.
    pub fn transfer_shares(&mut self, from: ActorId, to: ActorId, value: U256) -> (r: Result<
        (),
        PoolError,
    >)
        ensures
            old(self).transfer_post(&*final(self), from, to, value@, r),
    {
        proof {
            lemma_keys_ordered();
        }
        if self.paused {
            return Err(PoolError::Paused);
        }
        if to.is_zero() {
            return Err(PoolError::ZeroAddress);
        }
        if value.is_zero() {
            return Err(PoolError::ZeroAmount);
        }
        if !debit_in(&mut self.balances, from.key(), value) {
            return Err(PoolError::InsufficientBalance);
        }
        if !credit_in(&mut self.balances, to.key(), value) {
            return Err(PoolError::Overflow);
        }
        Ok(())
    }

    /// Let `spender` move up to `value` of `owner`'s shares; zero clears the allowance.
    pub fn approve_shares(&mut self, owner: ActorId, spender: ActorId, value: U256) -> (r: Result<
        (),
        PoolError,
    >)
        ensures
            final(self).same_config(old(self)),
            final(self).same_funds(old(self)),
            final(self).same_vesting(old(self)),
            final(self).same_unbonds(old(self)),
            final(self).same_sessions(old(self)),
            final(self).total_shares == old(self).total_shares,
            final(self).base_rate == old(self).base_rate,
            amounts(final(self).balances@) == amounts(old(self).balances@),
            old(self).paused ==> r == Err::<(), PoolError>(PoolError::Paused) && amounts(
                final(self).allowances@,
            ) == amounts(old(self).allowances@),
            !old(self).paused && spender.is_zero_spec() ==> r == Err::<(), PoolError>(
                PoolError::ZeroAddress,
            ) && amounts(final(self).allowances@) == amounts(old(self).allowances@),
            !old(self).paused && !spender.is_zero_spec() ==> r is Ok && amounts(
                final(self).allowances@,
            ) == with_amount(amounts(old(self).allowances@), (owner.key(), spender.key()), value@),
    {
        proof {
            lemma_keys_ordered();
        }
        if self.paused {
            return Err(PoolError::Paused);
        }
        if spender.is_zero() {
            return Err(PoolError::ZeroAddress);
        }
        store_amount(&mut self.allowances, (owner.key(), spender.key()), value);
        Ok(())
    }

    /// Spend `value` of what `spender` may move for `owner`; an allowance of 2^256 - 1 is never
    /// spent.
    pub fn spend_allowance(&mut self, owner: ActorId, spender: ActorId, value: U256) -> (r: Result<
        (),
        PoolError,
    >)
        ensures
            final(self).same_config(old(self)),
            final(self).same_funds(old(self)),
            final(self).same_vesting(old(self)),
            final(self).same_unbonds(old(self)),
            final(self).same_sessions(old(self)),
            final(self).total_shares == old(self).total_shares,
            final(self).base_rate == old(self).base_rate,
            amounts(final(self).balances@) == amounts(old(self).balances@),
            old(self).allowance_of(owner, spender) == u256_max() ==> r is Ok && amounts(
                final(self).allowances@,
            ) == amounts(old(self).allowances@),
            old(self).allowance_of(owner, spender) != u256_max() && value@ > old(self).allowance_of(
                owner,
                spender,
            ) ==> r == Err::<(), PoolError>(PoolError::InsufficientAllowance) && amounts(
                final(self).allowances@,
            ) == amounts(old(self).allowances@),
            old(self).allowance_of(owner, spender) != u256_max() && value@ <= old(self).allowance_of(owner, spender) ==> r is Ok && amounts(final(self).allowances@)
                == debited(amounts(old(self).allowances@), (owner.key(), spender.key()), value@),
    {
        proof {
            lemma_keys_ordered();
        }
        if spend_in(&mut self.allowances, (owner.key(), spender.key()), value) {
            Ok(())
        } else {
            Err(PoolError::InsufficientAllowance)
        }
    }

    /// Create `value` shares for `to`.
    pub fn mint_shares(&mut self, to: ActorId, value: U256) -> (r: Result<(), PoolError>)
        ensures
            final(self).same_config(old(self)),
            final(self).same_funds(old(self)),
            final(self).same_vesting(old(self)),
            final(self).same_unbonds(old(self)),
            final(self).same_sessions(old(self)),
            final(self).base_rate == old(self).base_rate,
            amounts(final(self).allowances@) == amounts(old(self).allowances@),
            old(self).total_shares@ + value@ <= u256_max() && old(self).balance(to) + value@
                <= u256_max() ==> r is Ok && final(self).total_shares@ == old(self).total_shares@
                + value@ && amounts(final(self).balances@) == credited(
                amounts(old(self).balances@),
                to.key(),
                value@,
            ),
            !(old(self).total_shares@ + value@ <= u256_max() && old(self).balance(to) + value@
                <= u256_max()) ==> r == Err::<(), PoolError>(PoolError::Overflow)
                && final(self).total_shares == old(self).total_shares && amounts(
                final(self).balances@,
            ) == amounts(old(self).balances@),
    {
        proof {
            lemma_keys_ordered();
        }
        let supply = match self.total_shares.checked_add(value) {
            Some(v) => v,
            None => return Err(PoolError::Overflow),
        };
        if !credit_in(&mut self.balances, to.key(), value) {
            return Err(PoolError::Overflow);
        }
        self.total_shares = supply;
        Ok(())
    }

    /// Burn `value` shares of `from`. When the last share goes, the pool remembers its rate
    /// (if at least 1.0) for the empty spell.
    pub fn burn_shares(&mut self, from: ActorId, value: U256, now_ms: u64) -> (r: Result<
        (),
        PoolError,
    >)
        requires
            old(self).quotable(),
        ensures
            final(self).same_config(old(self)),
            final(self).same_funds(old(self)),
            final(self).same_vesting(old(self)),
            final(self).same_unbonds(old(self)),
            final(self).same_sessions(old(self)),
            amounts(final(self).allowances@) == amounts(old(self).allowances@),
            value@ == 0 ==> r == Err::<(), PoolError>(PoolError::ZeroAmount) && final(self).same_shares(old(self)),
            value@ > 0 && value@ > old(self).balance(from) ==> r == Err::<(), PoolError>(
                PoolError::InsufficientShares,
            ) && final(self).same_shares(old(self)),
            value@ > 0 && value@ <= old(self).balance(from) ==> amounts(final(self).balances@)
                == debited(amounts(old(self).balances@), from.key(), value@),
            value@ > 0 && value@ <= old(self).balance(from) && old(self).total_shares@ < value@
                ==> r == Err::<(), PoolError>(PoolError::Overflow) && final(self).total_shares
                == old(self).total_shares && final(self).base_rate == old(self).base_rate,
            value@ > 0 && value@ <= old(self).balance(from) && old(self).total_shares@ >= value@
                ==> r is Ok && final(self).total_shares@ == old(self).total_shares@ - value@ && (
                if old(self).total_shares@ == value@ && old(self).rate(now_ms) >= scale_nat() {
                    final(self).base_rate@ == old(self).rate(now_ms)
                } else {
                    final(self).base_rate == old(self).base_rate
                }),
    {
        proof {
            lemma_keys_ordered();
        }
        if value.is_zero() {
            return Err(PoolError::ZeroAmount);
        }
        let rate_before = self.rate_at(now_ms);
        if !debit_in(&mut self.balances, from.key(), value) {
            return Err(PoolError::InsufficientShares);
        }
        self.total_shares = match self.total_shares.checked_sub(value) {
            Some(v) => v,
            None => return Err(PoolError::Overflow),
        };
        if self.total_shares.is_zero() && rate_before.ge(&scale()) {
            self.base_rate = rate_before;
        }
        Ok(())
    }
}

// --- pool flows ----------------------------------------------------------------------------

impl PoolState {
    /// What `transfer_shares(from, to, value)` does: `new` is the state after it and `r` its
    /// result.
    pub open spec fn transfer_post(&self, new: &PoolState, from: ActorId, to: ActorId, value: nat, r: Result<(), PoolError>) -> bool {
        &&& new.same_config(self)
        &&& new.same_funds(self)
        &&& new.same_vesting(self)
        &&& new.same_unbonds(self)
        &&& new.same_sessions(self)
        &&& new.total_shares == self.total_shares
        &&& new.base_rate == self.base_rate
        &&& amounts(new.allowances@) == amounts(self.allowances@)
        &&& if self.paused {
            r == Err::<(), PoolError>(PoolError::Paused) && amounts(new.balances@) == amounts(self.balances@)
        } else if to.is_zero_spec() {
            r == Err::<(), PoolError>(PoolError::ZeroAddress) && amounts(new.balances@) == amounts(
                self.balances@,
            )
        } else if value == 0 {
            r == Err::<(), PoolError>(PoolError::ZeroAmount) && amounts(new.balances@) == amounts(
                self.balances@,
            )
        } else if value > self.balance(from) {
            r == Err::<(), PoolError>(PoolError::InsufficientBalance) && amounts(new.balances@) == amounts(
                self.balances@,
            )
        } else {
            let mid = debited(amounts(self.balances@), from.key(), value);
            if amount_of(mid, to.key()) + value <= u256_max() {
                r is Ok && amounts(new.balances@) == credited(mid, to.key(), value)
            } else {
                r == Err::<(), PoolError>(PoolError::Overflow) && amounts(new.balances@) == mid
            }
        }
    }

    /// What undoing an instant exit (`shares` burned, `fee` kept, `net` paid) does: `new` is
    /// the state after it.
    pub open spec fn revert_post(&self, new: &PoolState, owner: ActorId, shares: nat, fee: nat, net: nat) -> bool {
        &&& new.same_config(self)
        &&& new.same_vesting(self)
        &&& new.same_unbonds(self)
        &&& new.same_sessions(self)
        &&& new.unbonding_total == self.unbonding_total
        &&& amounts(new.allowances@) == amounts(self.allowances@)
        &&& self.can_mint(owner, shares) ==> self.minted(new, owner, shares)
        &&& !self.can_mint(owner, shares) ==> new.same_shares(self)
        &&& new.fees_accrued@ == sat_sub(self.fees_accrued@, fee)
        &&& new.reserve@ == sat_add(self.reserve@, net)
    }

    /// What `restore_unbond(owner, entry)` does: `new` is the state after it.
    pub open spec fn restore_post(&self, new: &PoolState, owner: ActorId, entry: Unbond) -> bool {
        &&& new.same_config(self)
        &&& new.same_shares(self)
        &&& new.same_vesting(self)
        &&& new.same_sessions(self)
        &&& new.fees_accrued == self.fees_accrued
        &&& new.next_unbond_id == self.next_unbond_id
        &&& new.unbonding_total@ == sat_add(self.unbonding_total@, entry.assets@)
        &&& new.reserve@ == sat_add(self.reserve@, entry.assets@)
        &&& lists(new.unbonds@).contains_key(owner.key())
        &&& lists(new.unbonds@)[owner.key()].to_multiset() == list_of(
            lists(self.unbonds@),
            owner.key(),
        ).push(entry).to_multiset()
        &&& sorted_by_id(lists(new.unbonds@)[owner.key()])
        &&& lists(new.unbonds@).remove(owner.key()) == lists(self.unbonds@).remove(owner.key())
    }

    /// `new` is `self` after `mint_shares(to, value)` succeeded.
    pub open spec fn minted(&self, new: &PoolState, to: ActorId, value: nat) -> bool {
        &&& new.total_shares@ == self.total_shares@ + value
        &&& amounts(new.balances@) == credited(amounts(self.balances@), to.key(), value)
        &&& new.base_rate == self.base_rate
    }

    /// `mint_shares(to, value)` succeeds on `self`.
    pub open spec fn can_mint(&self, to: ActorId, value: nat) -> bool {
        self.total_shares@ + value <= u256_max() && self.balance(to) + value <= u256_max()
    }

    /// `new` is `self` after `burn_shares(from, value, now)` succeeded.
    pub open spec fn burned(&self, new: &PoolState, from: ActorId, value: nat, now: u64) -> bool {
        &&& amounts(new.balances@) == debited(amounts(self.balances@), from.key(), value)
        &&& new.total_shares@ == self.total_shares@ - value
        &&& if self.total_shares@ == value && self.rate(now) >= scale_nat() {
            new.base_rate@ == self.rate(now)
        } else {
            new.base_rate == self.base_rate
        }
    }

    /// Fees after the sweep a stake does first: what is distributable with no share
    /// outstanding belongs to nobody and goes to the fee bucket.
    pub open spec fn swept_fees(&self, now: u64) -> nat {
        if self.total_shares@ == 0 {
            sat_add(self.fees_accrued@, self.distributable_at(now))
        } else {
            self.fees_accrued@
        }
    }

    fn sweep_orphans(&mut self, now_ms: u64)
        ensures
            final(self).fees_accrued@ == old(self).swept_fees(now_ms),
            final(self).same_config(old(self)),
            final(self).same_shares(old(self)),
            final(self).reserve == old(self).reserve,
            final(self).unbonding_total == old(self).unbonding_total,
            final(self).same_vesting(old(self)),
            final(self).same_unbonds(old(self)),
            final(self).same_sessions(old(self)),
    {
        if self.total_shares.is_zero() {
            let orphaned = self.distributable(now_ms);
            self.fees_accrued = self.fees_accrued.saturating_add(orphaned);
        }
    }

    /// What `stake(owner, assets, now)` does: `new` is the state after it and `r` its result.
    pub open spec fn stake_post(&self, new: &PoolState, owner: ActorId, assets: nat, now: u64, r: Result<U256, PoolError>) -> bool {
        &&& (new.same_config(self))
        &&& (new.same_vesting(self))
        &&& (new.same_unbonds(self))
        &&& (new.same_sessions(self))
        &&& (new.unbonding_total == self.unbonding_total)
        &&& (amounts(new.allowances@) == amounts(self.allowances@))
        &&& (new.base_rate == self.base_rate)
        &&& (self.paused ==> r == Err::<U256, PoolError>(PoolError::Paused) && new.same_state(self))
        &&& (!self.paused && assets == 0 ==> r == Err::<U256, PoolError>(PoolError::ZeroAmount)
                && new.same_state(self))
        &&& (!self.paused && 0 < assets < MIN_STAKE ==> (r matches Err(
                PoolError::BelowMinimum { min }) && min@ == MIN_STAKE && new.same_state(self)))
        &&& (!self.paused && assets >= MIN_STAKE && self.shares_quote(assets, now)
                is None ==> r == Err::<U256, PoolError>(PoolError::Overflow) && new.same_state(self))
        &&& (!self.paused && assets >= MIN_STAKE && self.shares_quote(assets, now)
                == Some(0nat) ==> (r matches Err(PoolError::BelowMinimum { min }) && min@ == MIN_STAKE
                && new.same_state(self)))
        &&& (!self.paused && assets >= MIN_STAKE && self.shares_quote(assets, now)
                is Some && self.shares_quote(assets, now)->0 > 0 ==> ({
                let q = self.shares_quote(assets, now)->0;
                if self.can_mint(owner, q) && self.reserve@ + assets <= u256_max() {
                    &&& new.fees_accrued@ == self.swept_fees(now)
                    &&& self.minted(new, owner, q)
                    &&& r matches Ok(v) && v@ == q
                    &&& new.reserve@ == self.reserve@ + assets
                } else {
                    r == Err::<U256, PoolError>(PoolError::Overflow) && new.same_state(self)
                }
            }))
    }

    /// Stake `assets` of VARA that arrived with the message. Returns the shares minted; a refused
    /// stake leaves the pool unchanged.
    pub fn stake(&mut self, owner: ActorId, assets: U256, now_ms: u64) -> (r: Result<U256, PoolError>)
        requires
            old(self).quotable(),
        ensures
            old(self).stake_post(&*final(self), owner, assets@, now_ms, r),

    {
        if self.paused {
            return Err(PoolError::Paused);
        }
        if assets.is_zero() {
            return Err(PoolError::ZeroAmount);
        }
        let min = U256::from_u128(MIN_STAKE);
        if assets.lt(&min) {
            return Err(PoolError::BelowMinimum { min });
        }
        let shares = match self.shares_for(assets, now_ms) {
            Ok(v) => v,
            Err(e) => return Err(e),
        };
        if shares.is_zero() {
            return Err(PoolError::BelowMinimum { min });
        }
        let reserve = match self.reserve.checked_add(assets) {
            Some(v) => v,
            None => return Err(PoolError::Overflow),
        };
        let fees_before = self.fees_accrued;
        self.sweep_orphans(now_ms);
        match self.mint_shares(owner, shares) {
            Ok(()) => {},
            Err(e) => {
                self.fees_accrued = fees_before;
                return Err(e);
            },
        }
        self.reserve = reserve;
        Ok(shares)
    }

    /// What `unstake(owner, shares, now)` does: `new` is the state after it and `r` its result.
    pub open spec fn unstake_post(&self, new: &PoolState, owner: ActorId, shares: U256, now: u64, r: Result<UnstakePreview, PoolError>) -> bool {
        &&& (new.same_config(self))
        &&& (new.same_vesting(self))
        &&& (new.same_unbonds(self))
        &&& (new.same_sessions(self))
        &&& (new.unbonding_total == self.unbonding_total)
        &&& (amounts(new.allowances@) == amounts(self.allowances@))
        &&& (self.paused ==> r == Err::<UnstakePreview, PoolError>(PoolError::Paused)
            && new.same_state(self))
        &&& (!self.paused && shares@ == 0 ==> r == Err::<UnstakePreview, PoolError>(
                PoolError::ZeroAmount) && new.same_state(self))
        &&& (!self.paused && shares@ > 0 && self.balance(owner) < shares@ ==> r == Err::<
                UnstakePreview,
                PoolError>(PoolError::InsufficientShares) && new.same_state(self))
        &&& (!self.paused && shares@ > 0 && self.balance(owner) >= shares@
            && self.assets_quote(shares@, now) is None ==> r == Err::<UnstakePreview, PoolError>(
                PoolError::Overflow) && new.same_state(self))
        &&& (!self.paused && shares@ > 0 && self.balance(owner) >= shares@
            && self.assets_quote(shares@, now) is Some ==> ({
                let a = self.assets_quote(shares@, now)->0;
                let fee = self.fee_on(a);
                let d = self.distributable_at(now);
                if a - fee < MIN_PAYOUT {
                    r matches Err(PoolError::BelowMinimum { min }) && min@ == MIN_PAYOUT && new.same_state(self)
                } else if a > d {
                    r matches Err(PoolError::InsufficientReserve { available }) && available@ == d
                        && new.same_state(self)
                } else if self.total_shares@ < shares@ {
                    &&& r == Err::<UnstakePreview, PoolError>(PoolError::Overflow)
                    &&& amounts(new.balances@) == debited(
                        amounts(self.balances@),
                        owner.key(),
                        shares@,
                    )
                    &&& new.total_shares == self.total_shares
                    &&& new.base_rate == self.base_rate
                    &&& new.same_funds(self)
                } else {
                    &&& r matches Ok(p) && p.assets@ == a && p.fee@ == fee && p.net@ == a - fee
                    &&& self.burned(new, owner, shares@, now)
                    &&& new.fees_accrued@ == sat_add(self.fees_accrued@, fee)
                    &&& new.reserve@ == self.reserve@ - (a - fee)
                }
            }))
    }

    /// Burn shares for an instant exit and take the payout from the distributable reserve.
    /// Refuses, without changes, when the reserve cannot cover it.
    pub fn unstake(&mut self, owner: ActorId, shares: U256, now_ms: u64) -> (r: Result<
        UnstakePreview,
        PoolError,
    >)
        requires
            old(self).quotable(),
            old(self).fee_fits(shares@, now_ms),
        ensures
            old(self).unstake_post(&*final(self), owner, shares, now_ms, r),

    {
        if self.paused {
            return Err(PoolError::Paused);
        }
        if shares.is_zero() {
            return Err(PoolError::ZeroAmount);
        }
        if self.balance_of(&owner).lt(&shares) {
            return Err(PoolError::InsufficientShares);
        }
        let p = match self.preview_unstake(shares, now_ms) {
            Ok(p) => p,
            Err(e) => return Err(e),
        };
        let min = U256::from_u128(MIN_PAYOUT);
        if p.net.lt(&min) {
            return Err(PoolError::BelowMinimum { min });
        }
        let available = self.distributable(now_ms);
        if p.assets.gt(&available) {
            return Err(PoolError::InsufficientReserve { available });
        }
        match self.burn_shares(owner, shares, now_ms) {
            Ok(()) => {},
            Err(e) => return Err(e),
        }
        self.fees_accrued = self.fees_accrued.saturating_add(p.fee);
        self.reserve = self.reserve.sub(p.net);
        Ok(p)
    }

    /// Undo `unstake` after a failed payout: the shares come back, the fee leaves the bucket and
    /// the net returns to the reserve.
    pub fn revert_unstake(&mut self, owner: ActorId, shares: U256, p: &UnstakePreview)
        ensures
            old(self).revert_post(&*final(self), owner, shares@, p.fee@, p.net@),
    {
        let _ = self.mint_shares(owner, shares);
        self.fees_accrued = self.fees_accrued.saturating_sub(p.fee);
        self.reserve = self.reserve.saturating_add(p.net);
    }

    /// What `fund(assets, now)` does: `new` is the state after it and `r` its result.
    pub open spec fn fund_post(&self, new: &PoolState, assets: nat, now: u64, r: Result<(), PoolError>) -> bool {
        &&& (new.same_config(self))
        &&& (new.same_shares(self))
        &&& (new.same_unbonds(self))
        &&& (new.same_sessions(self))
        &&& (new.fees_accrued == self.fees_accrued)
        &&& (new.unbonding_total == self.unbonding_total)
        &&& (self.paused ==> r == Err::<(), PoolError>(PoolError::Paused) && new.same_state(self))
        &&& (!self.paused && assets == 0 ==> r == Err::<(), PoolError>(PoolError::ZeroAmount)
                && new.same_state(self))
        &&& (!self.paused && assets > 0 && self.locked(now) + assets > u256_max() ==> r
                == Err::<(), PoolError>(PoolError::Overflow) && new.same_state(self))
        &&& (!self.paused && assets > 0 && self.locked(now) + assets <= u256_max()
                ==> ({
                let rem = self.locked(now);
                if self.reserve@ + assets <= u256_max() {
                    &&& r is Ok
                    &&& new.reserve@ == self.reserve@ + assets
                    &&& new.vest_amount@ == rem + assets
                    &&& new.vest_start_ms == now
                    &&& new.vest_end_ms == sat_add_u64(
                        now,
                        funded_length(
                            rem,
                            assets,
                            self.vesting_period_ms,
                            self.vest_end_ms,
                            now,
                        ) as u64,
                    )
                } else {
                    r == Err::<(), PoolError>(PoolError::Overflow) && new.same_state(self)
                }
            }))
    }

    /// Add `assets` of rewards to the vesting tranche. What is still locked is folded in, and
    /// the new tranche's length is the amount-weighted average of the time left and a full
    /// vesting period.
    pub fn fund(&mut self, assets: U256, now_ms: u64) -> (r: Result<(), PoolError>)
        ensures
            old(self).fund_post(&*final(self), assets@, now_ms, r),

    {
        if self.paused {
            return Err(PoolError::Paused);
        }
        if assets.is_zero() {
            return Err(PoolError::ZeroAmount);
        }
        let remaining = self.locked_rewards(now_ms);
        let total = match remaining.checked_add(assets) {
            Some(v) => v,
            None => return Err(PoolError::Overflow),
        };
        let time_left = funded_tranche_length(
            remaining,
            assets,
            total,
            self.vesting_period_ms,
            self.vest_end_ms,
            now_ms,
        );
        let reserve = match self.reserve.checked_add(assets) {
            Some(v) => v,
            None => return Err(PoolError::Overflow),
        };
        self.vest_amount = total;
        self.vest_start_ms = now_ms;
        self.vest_end_ms = now_ms.saturating_add(time_left);
        self.reserve = reserve;
        Ok(())
    }

    /// What `request_unbond(owner, shares, now)` does: `new` is the state after it and `r` its
    /// result.
    pub open spec fn unbond_post(&self, new: &PoolState, owner: ActorId, shares: U256, now: u64, r: Result<Unbond, PoolError>) -> bool {
        &&& (new.same_config(self))
        &&& (new.same_vesting(self))
        &&& (new.same_sessions(self))
        &&& (new.reserve == self.reserve)
        &&& (new.fees_accrued == self.fees_accrued)
        &&& (amounts(new.allowances@) == amounts(self.allowances@))
        &&& (self.paused ==> r == Err::<Unbond, PoolError>(PoolError::Paused)
            && new.same_state(self))
        &&& (!self.paused && shares@ == 0 ==> r == Err::<Unbond, PoolError>(
                PoolError::ZeroAmount) && new.same_state(self))
        &&& (!self.paused && shares@ > 0 && self.balance(owner) < shares@ ==> r == Err::<
                Unbond,
                PoolError>(PoolError::InsufficientShares) && new.same_state(self))
        &&& (!self.paused && shares@ > 0 && self.balance(owner) >= shares@
            && self.assets_quote(shares@, now) is None ==> r == Err::<Unbond, PoolError>(
                PoolError::Overflow) && new.same_state(self))
        &&& (!self.paused && shares@ > 0 && self.balance(owner) >= shares@
            && self.assets_quote(shares@, now) is Some ==> ({
                let a = self.assets_quote(shares@, now)->0;
                let d = self.distributable_at(now);
                if a < MIN_PAYOUT {
                    r matches Err(PoolError::BelowMinimum { min }) && min@ == MIN_PAYOUT && new.same_state(self)
                } else if a > d {
                    r matches Err(PoolError::InsufficientReserve { available }) && available@ == d
                        && new.same_state(self)
                } else if self.total_shares@ < shares@ {
                    &&& r == Err::<Unbond, PoolError>(PoolError::Overflow)
                    &&& amounts(new.balances@) == debited(
                        amounts(self.balances@),
                        owner.key(),
                        shares@,
                    )
                    &&& new.total_shares == self.total_shares
                    &&& new.base_rate == self.base_rate
                    &&& new.same_unbonds(self)
                    &&& new.unbonding_total == self.unbonding_total
                } else if self.unbonding_total@ + a > u256_max() {
                    &&& r == Err::<Unbond, PoolError>(PoolError::Overflow)
                    &&& self.burned(new, owner, shares@, now)
                    &&& new.same_unbonds(self)
                    &&& new.unbonding_total == self.unbonding_total
                } else {
                    let e = Unbond {
                        id: self.next_unbond_id,
                        shares: shares,
                        assets: r->Ok_0.assets,
                        requested_at: now,
                        claimable_at: sat_add_u64(now, self.unbond_period_ms),
                    };
                    &&& r is Ok
                    &&& r->Ok_0 == e
                    &&& e.assets@ == a
                    &&& self.burned(new, owner, shares@, now)
                    &&& new.unbonding_total@ == self.unbonding_total@ + a
                    &&& new.next_unbond_id == self.next_unbond_id + 1
                    &&& lists(new.unbonds@) == lists(self.unbonds@).insert(
                        owner.key(),
                        list_of(lists(self.unbonds@), owner.key()).push(e),
                    )
                }
            }))
    }

    /// Timed exit: burn `shares` now and lock their VARA at the current rate, claimable after
    /// the unbond period.
    pub fn request_unbond(&mut self, owner: ActorId, shares: U256, now_ms: u64) -> (r: Result<
        Unbond,
        PoolError,
    >)
        requires
            old(self).quotable(),
            old(self).next_unbond_id < u64::MAX,
        ensures
            old(self).unbond_post(&*final(self), owner, shares, now_ms, r),

    {
        if self.paused {
            return Err(PoolError::Paused);
        }
        if shares.is_zero() {
            return Err(PoolError::ZeroAmount);
        }
        if self.balance_of(&owner).lt(&shares) {
            return Err(PoolError::InsufficientShares);
        }
        let assets = match self.assets_for(shares, now_ms) {
            Ok(v) => v,
            Err(e) => return Err(e),
        };
        let min = U256::from_u128(MIN_PAYOUT);
        if assets.lt(&min) {
            return Err(PoolError::BelowMinimum { min });
        }
        let available = self.distributable(now_ms);
        if assets.gt(&available) {
            return Err(PoolError::InsufficientReserve { available });
        }
        match self.burn_shares(owner, shares, now_ms) {
            Ok(()) => {},
            Err(e) => return Err(e),
        }
        self.unbonding_total = match self.unbonding_total.checked_add(assets) {
            Some(v) => v,
            None => return Err(PoolError::Overflow),
        };
        let entry = Unbond {
            id: self.next_unbond_id,
            shares,
            assets,
            requested_at: now_ms,
            claimable_at: now_ms.saturating_add(self.unbond_period_ms),
        };
        self.next_unbond_id = self.next_unbond_id + 1;
        push_entry(&mut self.unbonds, owner.key(), entry);
        Ok(entry)
    }

    /// What `take_unbond(owner, id, now)` does: `new` is the state after it and `r` its result.
    pub open spec fn take_post(&self, new: &PoolState, owner: ActorId, id: u64, now: u64, r: Result<Unbond, PoolError>) -> bool {
        &&& (new.same_config(self))
        &&& (new.same_shares(self))
        &&& (new.same_vesting(self))
        &&& (new.same_sessions(self))
        &&& (new.fees_accrued == self.fees_accrued)
        &&& (new.next_unbond_id == self.next_unbond_id)
        &&& (self.paused ==> r == Err::<Unbond, PoolError>(PoolError::Paused)
            && new.same_state(self))
        &&& (!self.paused && !has_id(list_of(lists(self.unbonds@), owner.key()), id) ==> r
                == Err::<Unbond, PoolError>(PoolError::UnbondNotFound) && new.same_state(self))
        &&& (forall|i: int|
                !self.paused && #[trigger] first_with(
                    list_of(lists(self.unbonds@), owner.key()),
                    id,
                    i,
                ) ==> ({
                    let list = list_of(lists(self.unbonds@), owner.key());
                    let e = list[i];
                    if now < e.claimable_at {
                        r == Err::<Unbond, PoolError>(
                            PoolError::UnbondNotReady { claimable_at: e.claimable_at },
                        ) && new.same_state(self)
                    } else if e.assets@ > self.reserve@ {
                        r == Err::<Unbond, PoolError>(
                            PoolError::InsufficientReserve { available: self.reserve },
                        ) && new.same_state(self)
                    } else {
                        &&& r == Ok::<Unbond, PoolError>(e)
                        &&& lists(new.unbonds@) == (if list.len() == 1 {
                            lists(self.unbonds@).remove(owner.key())
                        } else {
                            lists(self.unbonds@).insert(owner.key(), list.remove(i))
                        })
                        &&& new.unbonding_total@ == sat_sub(
                            self.unbonding_total@,
                            e.assets@,
                        )
                        &&& new.reserve@ == self.reserve@ - e.assets@
                    }
                }))
    }

    /// Remove a claimable unbond entry and take its VARA from the reserve.
    pub fn take_unbond(&mut self, owner: ActorId, id: u64, now_ms: u64) -> (r: Result<
        Unbond,
        PoolError,
    >)
        ensures
            old(self).take_post(&*final(self), owner, id, now_ms, r),

    {
        if self.paused {
            return Err(PoolError::Paused);
        }
        let k = owner.key();
        let list = entries_of(&self.unbonds, &k);
        let idx = match position_of(&list, id) {
            Some(i) => i,
            None => {
                proof {
                    assert(!has_id(list@, id));
                }
                return Err(PoolError::UnbondNotFound);
            },
        };
        proof {
            assert(first_with(list@, id, idx as int));
            assert forall|i: int| #[trigger] first_with(list@, id, i) implies i == idx by {
                if i < idx {
                    assert(list@[i].id != id);
                } else if i > idx {
                    assert(list@[idx as int].id != id);
                }
            }
        }
        let claimable_at = list[idx].claimable_at;
        if now_ms < claimable_at {
            return Err(PoolError::UnbondNotReady { claimable_at });
        }
        if list[idx].assets.gt(&self.reserve) {
            return Err(PoolError::InsufficientReserve { available: self.reserve });
        }
        let entry = take_at(&mut self.unbonds, k, idx);
        self.unbonding_total = self.unbonding_total.saturating_sub(entry.assets);
        self.reserve = self.reserve.sub(entry.assets);
        Ok(entry)
    }

    /// Put an unbond entry back after a failed payout.
    pub fn restore_unbond(&mut self, owner: ActorId, entry: Unbond)
        ensures
            old(self).restore_post(&*final(self), owner, entry),
    {
        self.unbonding_total = self.unbonding_total.saturating_add(entry.assets);
        self.reserve = self.reserve.saturating_add(entry.assets);
        restore_entry(&mut self.unbonds, owner.key(), entry);
    }

    /// The unbond entries of `owner`.
    pub fn unbonds_of(&self, owner: &ActorId) -> (r: Vec<Unbond>)
        ensures
            r@ == list_of(lists(self.unbonds@), owner.key()),
    {
        entries_of(&self.unbonds, &owner.key())
    }

    fn ensure_admin(&self, who: ActorId) -> (r: Result<(), PoolError>)
        ensures
            self.admin == who ==> r is Ok,
            self.admin != who ==> r == Err::<(), PoolError>(PoolError::Unauthorized),
    {
        if self.admin.same(&who) {
            Ok(())
        } else {
            Err(PoolError::Unauthorized)
        }
    }

    /// The configuration is in bounds.
    pub open spec fn config_ok(fee: u32, unbond_secs: u64, vesting_secs: u64) -> bool {
        fee <= MAX_FEE_BPS && unbond_secs <= MAX_UNBOND_SECS && MIN_VESTING_SECS <= vesting_secs
            <= MAX_VESTING_SECS
    }

    /// Change the fee and periods; out-of-range values are refused.
    pub fn set_config(&mut self, instant_fee_bps: u32, unbond_period_secs: u64, vesting_period_secs: u64) -> (r: Result<
        (),
        PoolError,
    >)
        ensures
            final(self).same_shares(old(self)),
            final(self).same_funds(old(self)),
            final(self).same_vesting(old(self)),
            final(self).same_unbonds(old(self)),
            final(self).same_sessions(old(self)),
            final(self).admin == old(self).admin,
            final(self).name == old(self).name,
            final(self).symbol == old(self).symbol,
            final(self).decimals == old(self).decimals,
            final(self).paused == old(self).paused,
            !Self::config_ok(instant_fee_bps, unbond_period_secs, vesting_period_secs) ==> r
                == Err::<(), PoolError>(PoolError::BadConfig) && final(self).same_config(old(self)),
            Self::config_ok(instant_fee_bps, unbond_period_secs, vesting_period_secs) ==> r is Ok
                && final(self).instant_fee_bps == instant_fee_bps && final(self).unbond_period_ms
                == ms_of(unbond_period_secs) && final(self).vesting_period_ms == ms_of(
                vesting_period_secs,
            ),
    {
        if instant_fee_bps > MAX_FEE_BPS || unbond_period_secs > MAX_UNBOND_SECS
            || vesting_period_secs < MIN_VESTING_SECS || vesting_period_secs > MAX_VESTING_SECS {
            return Err(PoolError::BadConfig);
        }
        self.instant_fee_bps = instant_fee_bps;
        self.unbond_period_ms = secs_to_ms(unbond_period_secs);
        self.vesting_period_ms = secs_to_ms(vesting_period_secs);
        Ok(())
    }
}

// --- sessions ------------------------------------------------------------------------------

impl PoolState {
    /// Who a message from `sender` acts for when it performs `action` at `now`.
    pub open spec fn route(&self, sender: ActorId, action: SessionAction, now: u64) -> Result<
        ActorId,
        PoolError,
    > {
        if !self.session_keys@.contains_key(sender.key()) {
            Ok(sender)
        } else {
            let owner = self.session_keys@[sender.key()];
            if !self.sessions@.contains_key(owner.key()) {
                Ok(sender)
            } else {
                let s = self.sessions@[owner.key()];
                if now >= s.expires_at {
                    Ok(sender)
                } else if !s.actions@.contains(action) {
                    Err(PoolError::SessionNotAllowed)
                } else {
                    Ok(owner)
                }
            }
        }
    }

    /// `key` is held by a live session of an owner other than `owner`.
    pub open spec fn bound_elsewhere(&self, key: ActorId, owner: ActorId, now: u64) -> bool {
        &&& self.session_keys@.contains_key(key.key())
        &&& self.session_keys@[key.key()] != owner
        &&& self.sessions@.contains_key(self.session_keys@[key.key()].key())
        &&& now < self.sessions@[self.session_keys@[key.key()].key()].expires_at
    }

    /// The session books after `key` accepted the session `owner` proposed (`p`).
    pub open spec fn accepted_sessions(&self, key: ActorId, owner: ActorId, p: (
        ActorId,
        u64,
        Seq<SessionAction>,
    )) -> Map<Key, (ActorId, u64, Seq<SessionAction>)> {
        let s0 = session_views(self.sessions@);
        let s1 = s0.remove(owner.key());
        let k1 = self.keys_after_drop(owner);
        let s2 = if k1.contains_key(key.key()) && k1[key.key()] != owner {
            s1.remove(k1[key.key()].key())
        } else {
            s1
        };
        s2.insert(owner.key(), p)
    }

    /// The key book once the owner's previous session is dropped.
    pub open spec fn keys_after_drop(&self, owner: ActorId) -> Map<Key, ActorId> {
        if self.sessions@.contains_key(owner.key()) {
            self.session_keys@.remove(self.sessions@[owner.key()].key.key())
        } else {
            self.session_keys@
        }
    }

    /// The key book after `key` accepted the session `owner` proposed.
    pub open spec fn accepted_keys(&self, key: ActorId, owner: ActorId) -> Map<Key, ActorId> {
        let k1 = self.keys_after_drop(owner);
        let k2 = if k1.contains_key(key.key()) && k1[key.key()] != owner {
            k1.remove(key.key())
        } else {
            k1
        };
        k2.insert(key.key(), owner)
    }

    /// Who a message acts for: the sender itself, or the owner of the accepted session key it
    /// holds. An expired session no longer binds the key: it is a plain account again.
    pub fn actor_for(&self, sender: ActorId, action: SessionAction, now_ms: u64) -> (r: Result<
        ActorId,
        PoolError,
    >)
        ensures
            r == self.route(sender, action, now_ms),
    {
        let owner = match self.session_keys.get(&sender.key()) {
            Some(o) => *o,
            None => return Ok(sender),
        };
        let session = match self.sessions.get(&owner.key()) {
            Some(s) => s,
            None => return Ok(sender),
        };
        if now_ms >= session.expires_at {
            return Ok(sender);
        }
        if !session.allows(action) {
            return Err(PoolError::SessionNotAllowed);
        }
        Ok(owner)
    }

    /// True when `key` is held by a live session of another owner.
    fn key_bound_elsewhere(&self, key: ActorId, owner: ActorId, now_ms: u64) -> (r: bool)
        ensures
            r == self.bound_elsewhere(key, owner, now_ms),
    {
        match self.session_keys.get(&key.key()) {
            Some(other) => {
                if other.same(&owner) {
                    false
                } else {
                    match self.sessions.get(&other.key()) {
                        Some(s) => now_ms < s.expires_at,
                        None => false,
                    }
                }
            },
            None => false,
        }
    }

    /// The proposal is well formed.
    pub open spec fn proposal_ok(owner: ActorId, key: ActorId, duration_secs: u64, actions: Seq<
        SessionAction,
    >) -> bool {
        !key.is_zero_spec() && key != owner && duration_secs != 0 && duration_secs
            <= MAX_SESSION_SECS && actions.len() > 0
    }

    /// Propose a session. Nothing changes for `key` until it accepts.
    pub fn propose_session(
        &mut self,
        owner: ActorId,
        key: ActorId,
        duration_secs: u64,
        actions: Vec<SessionAction>,
        now_ms: u64,
    ) -> (r: Result<Session, PoolError>)
        ensures
            final(self).same_config(old(self)),
            final(self).same_shares(old(self)),
            final(self).same_funds(old(self)),
            final(self).same_vesting(old(self)),
            final(self).same_unbonds(old(self)),
            session_views(final(self).sessions@) == session_views(old(self).sessions@),
            final(self).session_keys@ == old(self).session_keys@,
            !Self::proposal_ok(owner, key, duration_secs, actions@) || old(self).bound_elsewhere(
                key,
                owner,
                now_ms,
            ) ==> r == Err::<Session, PoolError>(PoolError::BadSession) && session_views(
                final(self).pending_sessions@,
            ) == session_views(old(self).pending_sessions@),
            Self::proposal_ok(owner, key, duration_secs, actions@) && !old(self).bound_elsewhere(
                key,
                owner,
                now_ms,
            ) ==> r is Ok && r->Ok_0@ == (key, sat_add_u64(now_ms, ms_of(duration_secs)), actions@)
                && session_views(final(self).pending_sessions@) == session_views(
                old(self).pending_sessions@,
            ).insert(owner.key(), r->Ok_0@),
    {
        if key.is_zero() || key.same(&owner) || duration_secs == 0 || duration_secs > MAX_SESSION_SECS
            || actions.len() == 0 {
            return Err(PoolError::BadSession);
        }
        if self.key_bound_elsewhere(key, owner, now_ms) {
            return Err(PoolError::BadSession);
        }
        let session = Session {
            key,
            expires_at: now_ms.saturating_add(secs_to_ms(duration_secs)),
            actions,
        };
        self.pending_sessions.insert(owner.key(), session.duplicate());
        assert(session_views(self.pending_sessions@) =~= session_views(
            old(self).pending_sessions@,
        ).insert(owner.key(), session@));
        Ok(session)
    }

    /// What `accept_session(key, owner, now)` does: `new` is the state after it and `r` its result.
    pub open spec fn accept_post(&self, new: &PoolState, key: ActorId, owner: ActorId, now_ms: u64, r: Result<Session, PoolError>) -> bool {
        &&& new.same_config(self)
        &&& new.same_shares(self)
        &&& new.same_funds(self)
        &&& new.same_vesting(self)
        &&& new.same_unbonds(self)
        &&& if !(self.pending_sessions@.contains_key(owner.key())
            && self.pending_sessions@[owner.key()].key == key) {
            r == Err::<Session, PoolError>(PoolError::BadSession) && new.same_sessions(self)
        } else {
            let p = self.pending_sessions@[owner.key()];
            if now_ms >= p.expires_at {
                r == Err::<Session, PoolError>(PoolError::SessionExpired) && new.same_sessions(self)
            } else if self.bound_elsewhere(key, owner, now_ms) {
                r == Err::<Session, PoolError>(PoolError::BadSession) && new.same_sessions(self)
            } else {
                &&& r is Ok
                &&& r->Ok_0@ == p@
                &&& session_views(new.pending_sessions@) == session_views(
                    self.pending_sessions@,
                ).remove(owner.key())
                &&& session_views(new.sessions@) == self.accepted_sessions(key, owner, p@)
                &&& new.session_keys@ == self.accepted_keys(key, owner)
            }
        }
    }

    /// The key accepts the session `owner` proposed for it; from now on it acts for `owner`.
    /// Replaces any session the owner had before, and frees a dead binding of the key.
    pub fn accept_session(&mut self, key: ActorId, owner: ActorId, now_ms: u64) -> (r: Result<
        Session,
        PoolError,
    >)
        ensures
            old(self).accept_post(&*final(self), key, owner, now_ms, r),
    {
        let ok = match self.pending_sessions.get(&owner.key()) {
            Some(p) => p.key.same(&key),
            None => false,
        };
        if !ok {
            return Err(PoolError::BadSession);
        }
        let expires_at = match self.pending_sessions.get(&owner.key()) {
            Some(p) => p.expires_at,
            None => return Err(PoolError::BadSession),
        };
        if now_ms >= expires_at {
            return Err(PoolError::SessionExpired);
        }
        if self.key_bound_elsewhere(key, owner, now_ms) {
            return Err(PoolError::BadSession);
        }
        let session = match self.pending_sessions.remove(&owner.key()) {
            Some(s) => s,
            None => return Err(PoolError::BadSession),
        };
        assert(session_views(self.pending_sessions@) =~= session_views(
            old(self).pending_sessions@,
        ).remove(owner.key()));
        let ghost s0 = session_views(self.sessions@);
        match self.sessions.remove(&owner.key()) {
            Some(old_session) => {
                self.session_keys.remove(&old_session.key.key());
            },
            None => {},
        }
        assert(self.session_keys@ =~= old(self).keys_after_drop(owner));
        assert(session_views(self.sessions@) =~= s0.remove(owner.key()));
        let bound = match self.session_keys.get(&key.key()) {
            Some(other) => Some(*other),
            None => None,
        };
        match bound {
            Some(other) => {
                if !other.same(&owner) {
                    self.sessions.remove(&other.key());
                    self.session_keys.remove(&key.key());
                }
            },
            None => {},
        }
        self.sessions.insert(owner.key(), session.duplicate());
        self.session_keys.insert(key.key(), owner);
        assert(session_views(self.sessions@) =~= old(self).accepted_sessions(key, owner, session@));
        assert(self.session_keys@ =~= old(self).accepted_keys(key, owner));
        Ok(session)
    }

    /// What `revoke_session(owner)` does: `new` is the state after it and `r` its result.
    pub open spec fn revoke_post(&self, new: &PoolState, owner: ActorId, r: bool) -> bool {
        &&& new.same_config(self)
        &&& new.same_shares(self)
        &&& new.same_funds(self)
        &&& new.same_vesting(self)
        &&& new.same_unbonds(self)
        &&& r == (self.pending_sessions@.contains_key(owner.key()) || self.sessions@.contains_key(
            owner.key(),
        ))
        &&& session_views(new.pending_sessions@) == session_views(self.pending_sessions@).remove(
            owner.key(),
        )
        &&& session_views(new.sessions@) == session_views(self.sessions@).remove(owner.key())
        &&& new.session_keys@ == self.keys_after_drop(owner)
    }

    /// Drop the owner's session, active or proposed. Returns whether one existed.
    pub fn revoke_session(&mut self, owner: ActorId) -> (r: bool)
        ensures
            old(self).revoke_post(&*final(self), owner, r),
    {
        let pending = match self.pending_sessions.remove(&owner.key()) {
            Some(_) => true,
            None => false,
        };
        assert(session_views(self.pending_sessions@) =~= session_views(
            old(self).pending_sessions@,
        ).remove(owner.key()));
        let ghost s0 = session_views(self.sessions@);
        match self.sessions.remove(&owner.key()) {
            Some(old_session) => {
                self.session_keys.remove(&old_session.key.key());
                assert(session_views(self.sessions@) =~= s0.remove(owner.key()));
                assert(self.session_keys@ =~= old(self).keys_after_drop(owner));
                true
            },
            None => {
                assert(session_views(self.sessions@) =~= s0.remove(owner.key()));
                pending
            },
        }
    }

    /// A live session of `s`, copied; `None` once it expired.
    fn live_copy(s: Option<&Session>, now_ms: u64) -> (r: Option<Session>)
        ensures
            match s {
                Some(x) => if now_ms < x.expires_at {
                    r is Some && r->0@ == x@
                } else {
                    r is None
                },
                None => r is None,
            },
    {
        match s {
            Some(x) => if now_ms < x.expires_at {
                Some(x.duplicate())
            } else {
                None
            },
            None => None,
        }
    }

    /// The owner's active session, while it is live.
    pub fn session(&self, owner: ActorId, now_ms: u64) -> (r: Option<Session>)
        ensures
            self.sessions@.contains_key(owner.key()) && now_ms < self.sessions@[owner.key()].expires_at
                ==> r is Some && r->0@ == self.sessions@[owner.key()]@,
            !(self.sessions@.contains_key(owner.key()) && now_ms < self.sessions@[
                owner.key()
            ].expires_at) ==> r is None,
    {
        Self::live_copy(self.sessions.get(&owner.key()), now_ms)
    }

    /// The owner's proposed session, while it is live.
    pub fn pending_session(&self, owner: ActorId, now_ms: u64) -> (r: Option<Session>)
        ensures
            self.pending_sessions@.contains_key(owner.key()) && now_ms
                < self.pending_sessions@[owner.key()].expires_at ==> r is Some && r->0@
                == self.pending_sessions@[owner.key()]@,
            !(self.pending_sessions@.contains_key(owner.key()) && now_ms
                < self.pending_sessions@[owner.key()].expires_at) ==> r is None,
    {
        Self::live_copy(self.pending_sessions.get(&owner.key()), now_ms)
    }

    /// The owner a key acts for, while its session is live.
    pub fn session_owner(&self, key: ActorId, now_ms: u64) -> (r: Option<ActorId>)
        ensures
            r == (if self.session_keys@.contains_key(key.key()) && self.sessions@.contains_key(
                self.session_keys@[key.key()].key(),
            ) && now_ms < self.sessions@[self.session_keys@[key.key()].key()].expires_at {
                Some(self.session_keys@[key.key()])
            } else {
                None::<ActorId>
            }),
    {
        let owner = match self.session_keys.get(&key.key()) {
            Some(o) => *o,
            None => return None,
        };
        match self.sessions.get(&owner.key()) {
            Some(s) => if now_ms < s.expires_at {
                Some(owner)
            } else {
                None
            },
            None => None,
        }
    }
}

// --- queries -------------------------------------------------------------------------------

impl PoolState {
    /// A snapshot of the pool at `now_ms`.
    pub fn info(&self, now_ms: u64) -> (r: PoolInfo)
        requires
            self.quotable(),
            self.apy_is_zero(now_ms) || self.vest_start_ms < self.vest_end_ms,
        ensures
            r.admin == self.admin,
            r.name == self.name,
            r.symbol == self.symbol,
            r.decimals == self.decimals,
            r.rate@ == self.rate(now_ms),
            r.apy_bps == self.apy(now_ms),
            r.instant_fee_bps == self.instant_fee_bps,
            r.unbond_period_secs == self.unbond_period_ms / 1000,
            r.vesting_period_secs == self.vesting_period_ms / 1000,
            r.total_shares == self.total_shares,
            r.total_assets@ == (if self.total_shares@ == 0 { 0 } else { self.distributable_at(now_ms) }),
            r.reserve == self.reserve,
            r.distributable@ == self.distributable_at(now_ms),
            r.locked_rewards@ == self.locked(now_ms),
            r.vesting_ends_at == (if self.locked(now_ms) == 0 { 0 } else { self.vest_end_ms }),
            r.fees_accrued == self.fees_accrued,
            r.unbonding_total == self.unbonding_total,
            r.min_stake@ == MIN_STAKE,
            r.paused == self.paused,
    {
        let locked = self.locked_rewards(now_ms);
        PoolInfo {
            admin: self.admin,
            name: self.name.clone(),
            symbol: self.symbol.clone(),
            decimals: self.decimals,
            rate: self.rate_at(now_ms),
            apy_bps: self.apy_bps(now_ms),
            instant_fee_bps: self.instant_fee_bps,
            unbond_period_secs: self.unbond_period_ms / 1000,
            vesting_period_secs: self.vesting_period_ms / 1000,
            total_shares: self.total_shares,
            total_assets: self.total_assets(now_ms),
            reserve: self.reserve,
            distributable: self.distributable(now_ms),
            locked_rewards: locked,
            vesting_ends_at: if locked.is_zero() {
                0
            } else {
                self.vest_end_ms
            },
            fees_accrued: self.fees_accrued,
            unbonding_total: self.unbonding_total,
            min_stake: U256::from_u128(MIN_STAKE),
            paused: self.paused,
        }
    }

    /// Shares a stake of `assets` would mint now; zero when the quote overflows.
    pub fn preview_stake(&self, assets: U256, now_ms: u64) -> (r: U256)
        requires
            self.quotable(),
        ensures
            r@ == (match self.shares_quote(assets@, now_ms) {
                Some(q) => q,
                None => 0,
            }),
    {
        match self.shares_for(assets, now_ms) {
            Ok(v) => v,
            Err(_) => U256::zero(),
        }
    }

    /// What an instant exit of `shares` would pay now; all zero when the quote overflows.
    pub fn unstake_quote(&self, shares: U256, now_ms: u64) -> (r: UnstakePreview)
        requires
            self.quotable(),
            self.fee_fits(shares@, now_ms),
        ensures
            match self.assets_quote(shares@, now_ms) {
                Some(a) => r.assets@ == a && r.fee@ == self.fee_on(a) && r.net@ == a - self.fee_on(
                    a,
                ),
                None => r.assets@ == 0 && r.fee@ == 0 && r.net@ == 0,
            },
    {
        match self.preview_unstake(shares, now_ms) {
            Ok(p) => p,
            Err(_) => UnstakePreview { assets: U256::zero(), fee: U256::zero(), net: U256::zero() },
        }
    }

    /// The shares of `account` and what they are worth now (zero when the quote overflows).
    pub fn position(&self, account: ActorId, now_ms: u64) -> (r: Position)
        requires
            self.quotable(),
        ensures
            r.shares@ == self.balance(account),
            r.assets@ == (match self.assets_quote(self.balance(account), now_ms) {
                Some(a) => a,
                None => 0,
            }),
    {
        let shares = self.balance_of(&account);
        let assets = match self.assets_for(shares, now_ms) {
            Ok(v) => v,
            Err(_) => U256::zero(),
        };
        Position { shares, assets }
    }
}

// --- messages ------------------------------------------------------------------------------
//
// Each command of the program, as the decision it makes: who it acts for, the transition, and
// what it answers. The program around these performs the value transfers, hands their outcome
// back to the `settle_*` functions, and emits the events.

impl PoolState {
    /// `Vft::approve` sent by `owner`.
    pub fn vft_approve(&mut self, owner: ActorId, spender: ActorId, value: U256) -> (r: Result<bool, PoolError>)
        ensures
            final(self).same_config(old(self)),
            final(self).same_funds(old(self)),
            final(self).same_vesting(old(self)),
            final(self).same_unbonds(old(self)),
            final(self).same_sessions(old(self)),
            final(self).total_shares == old(self).total_shares,
            final(self).base_rate == old(self).base_rate,
            amounts(final(self).balances@) == amounts(old(self).balances@),
            old(self).paused ==> r == Err::<bool, PoolError>(PoolError::Paused) && amounts(
                final(self).allowances@,
            ) == amounts(old(self).allowances@),
            !old(self).paused && spender.is_zero_spec() ==> r == Err::<bool, PoolError>(
                PoolError::ZeroAddress,
            ) && amounts(final(self).allowances@) == amounts(old(self).allowances@),
            !old(self).paused && !spender.is_zero_spec() ==> r == Ok::<bool, PoolError>(true)
                && amounts(final(self).allowances@) == with_amount(
                amounts(old(self).allowances@),
                (owner.key(), spender.key()),
                value@,
            ),
    {
        match self.approve_shares(owner, spender, value) {
            Ok(()) => Ok(true),
            Err(e) => Err(e),
        }
    }

    /// `Vft::transfer` sent by `from`.
    pub fn vft_transfer(&mut self, from: ActorId, to: ActorId, value: U256) -> (r: Result<bool, PoolError>)
        ensures
            final(self).same_config(old(self)),
            final(self).same_funds(old(self)),
            final(self).same_vesting(old(self)),
            final(self).same_unbonds(old(self)),
            final(self).same_sessions(old(self)),
            final(self).total_shares == old(self).total_shares,
            final(self).base_rate == old(self).base_rate,
            amounts(final(self).allowances@) == amounts(old(self).allowances@),
            r is Ok ==> r == Ok::<bool, PoolError>(true),
            old(self).paused ==> r == Err::<bool, PoolError>(PoolError::Paused) && amounts(
                final(self).balances@,
            ) == amounts(old(self).balances@),
            !old(self).paused && to.is_zero_spec() ==> r == Err::<bool, PoolError>(
                PoolError::ZeroAddress,
            ) && amounts(final(self).balances@) == amounts(old(self).balances@),
            !old(self).paused && !to.is_zero_spec() && value@ == 0 ==> r == Err::<bool, PoolError>(
                PoolError::ZeroAmount,
            ) && amounts(final(self).balances@) == amounts(old(self).balances@),
            !old(self).paused && !to.is_zero_spec() && value@ > 0 && value@ > old(self).balance(from)
                ==> r == Err::<bool, PoolError>(PoolError::InsufficientBalance) && amounts(
                final(self).balances@,
            ) == amounts(old(self).balances@),
            !old(self).paused && !to.is_zero_spec() && value@ > 0 && value@ <= old(self).balance(
                from,
            ) ==> ({
                let mid = debited(amounts(old(self).balances@), from.key(), value@);
                if amount_of(mid, to.key()) + value@ <= u256_max() {
                    r is Ok && amounts(final(self).balances@) == credited(mid, to.key(), value@)
                } else {
                    r == Err::<bool, PoolError>(PoolError::Overflow) && amounts(final(self).balances@)
                        == mid
                }
            }),
    {
        match self.transfer_shares(from, to, value) {
            Ok(()) => Ok(true),
            Err(e) => Err(e),
        }
    }

    /// `Vft::transfer_from` sent by `spender`: the allowance is spent first unless the spender
    /// moves its own shares.
    pub fn vft_transfer_from(&mut self, spender: ActorId, from: ActorId, to: ActorId, value: U256) -> (r: Result<
        bool,
        PoolError,
    >)
        ensures
            final(self).same_config(old(self)),
            final(self).same_funds(old(self)),
            final(self).same_vesting(old(self)),
            final(self).same_unbonds(old(self)),
            final(self).same_sessions(old(self)),
            final(self).total_shares == old(self).total_shares,
            final(self).base_rate == old(self).base_rate,
            r is Ok ==> r == Ok::<bool, PoolError>(true),
            spender != from && old(self).allowance_of(from, spender) != u256_max() && value@ > old(self).allowance_of(from, spender) ==> r == Err::<bool, PoolError>(
                PoolError::InsufficientAllowance,
            ) && final(self).same_state(old(self)),
            spender == from || old(self).allowance_of(from, spender) == u256_max() ==> amounts(
                final(self).allowances@,
            ) == amounts(old(self).allowances@),
            spender != from && old(self).allowance_of(from, spender) != u256_max() && value@ <= old(self).allowance_of(from, spender) ==> amounts(final(self).allowances@) == debited(
                amounts(old(self).allowances@),
                (from.key(), spender.key()),
                value@,
            ),
            spender == from || old(self).allowance_of(from, spender) == u256_max() || value@ <= old(self).allowance_of(from, spender) ==> ({
                &&& old(self).paused ==> r == Err::<bool, PoolError>(PoolError::Paused) && amounts(
                    final(self).balances@,
                ) == amounts(old(self).balances@)
                &&& !old(self).paused && to.is_zero_spec() ==> r == Err::<bool, PoolError>(
                    PoolError::ZeroAddress,
                ) && amounts(final(self).balances@) == amounts(old(self).balances@)
                &&& !old(self).paused && !to.is_zero_spec() && value@ == 0 ==> r == Err::<
                    bool,
                    PoolError,
                >(PoolError::ZeroAmount) && amounts(final(self).balances@) == amounts(
                    old(self).balances@,
                )
                &&& !old(self).paused && !to.is_zero_spec() && value@ > 0 && value@ > old(self).balance(from) ==> r == Err::<bool, PoolError>(PoolError::InsufficientBalance)
                    && amounts(final(self).balances@) == amounts(old(self).balances@)
                &&& !old(self).paused && !to.is_zero_spec() && value@ > 0 && value@ <= old(self).balance(from) ==> ({
                    let mid = debited(amounts(old(self).balances@), from.key(), value@);
                    if amount_of(mid, to.key()) + value@ <= u256_max() {
                        r is Ok && amounts(final(self).balances@) == credited(mid, to.key(), value@)
                    } else {
                        r == Err::<bool, PoolError>(PoolError::Overflow) && amounts(
                            final(self).balances@,
                        ) == mid
                    }
                })
            }),
    {
        if !spender.same(&from) {
            match self.spend_allowance(from, spender, value) {
                Ok(()) => {},
                Err(e) => return Err(e),
            }
        }
        match self.transfer_shares(from, to, value) {
            Ok(()) => Ok(true),
            Err(e) => Err(e),
        }
    }

    /// `Pool::stake` with `value` attached by `sender`: the owner it acts for, the shares
    /// minted and the rate after the stake. On an error the program sends the value back.
    pub fn stake_message(&mut self, sender: ActorId, value: u128, now_ms: u64) -> (r: Result<
        (ActorId, U256, U256),
        PoolError,
    >)
        requires
            old(self).quotable(),
        ensures
            old(self).route(sender, SessionAction::Stake, now_ms) matches Err(e) ==> r == Err::<
                (ActorId, U256, U256),
                PoolError,
            >(e) && final(self).same_state(old(self)),
            old(self).route(sender, SessionAction::Stake, now_ms) matches Ok(owner) ==> ({
                let shares = match r {
                    Ok(t) => Ok::<U256, PoolError>(t.1),
                    Err(e) => Err::<U256, PoolError>(e),
                };
                &&& old(self).stake_post(&*final(self), owner, value as nat, now_ms, shares)
                &&& r matches Ok(t) ==> t.0 == owner && t.2@ == final(self).rate(now_ms)
            }),
    {
        let assets = U256::from_u128(value);
        let owner = match self.actor_for(sender, SessionAction::Stake, now_ms) {
            Ok(o) => o,
            Err(e) => return Err(e),
        };
        match self.stake(owner, assets, now_ms) {
            Ok(shares) => {
                let rate = self.rate_at(now_ms);
                Ok((owner, shares, rate))
            },
            Err(e) => Err(e),
        }
    }

    /// `Pool::unstake` sent by `sender`, up to the payout: the owner it acts for, what the
    /// exit pays, and the rate before it. The program then sends `net` to the owner and hands
    /// the outcome to `settle_unstake`.
    pub fn begin_unstake(&mut self, sender: ActorId, shares: U256, now_ms: u64) -> (r: Result<
        (ActorId, UnstakePreview, U256),
        PoolError,
    >)
        requires
            old(self).quotable(),
            old(self).fee_fits(shares@, now_ms),
        ensures
            old(self).route(sender, SessionAction::Unstake, now_ms) matches Err(e) ==> r == Err::<
                (ActorId, UnstakePreview, U256),
                PoolError,
            >(e) && final(self).same_state(old(self)),
            old(self).route(sender, SessionAction::Unstake, now_ms) matches Ok(owner) ==> ({
                let out = match r {
                    Ok(t) => Ok::<UnstakePreview, PoolError>(t.1),
                    Err(e) => Err::<UnstakePreview, PoolError>(e),
                };
                &&& old(self).unstake_post(&*final(self), owner, shares, now_ms, out)
                &&& r matches Ok(t) ==> t.0 == owner && t.2@ == old(self).rate(now_ms)
            }),
    {
        let owner = match self.actor_for(sender, SessionAction::Unstake, now_ms) {
            Ok(o) => o,
            Err(e) => return Err(e),
        };
        let rate = self.rate_at(now_ms);
        match self.unstake(owner, shares, now_ms) {
            Ok(p) => Ok((owner, p, rate)),
            Err(e) => Err(e),
        }
    }

    /// The end of `Pool::unstake`: a payout that went through answers the preview; a refused
    /// one is undone with `revert_unstake` and answers its error.
    pub fn settle_unstake(
        &mut self,
        owner: ActorId,
        shares: U256,
        preview: UnstakePreview,
        payout: Result<(), PoolError>,
    ) -> (r: Result<UnstakePreview, PoolError>)
        ensures
            payout is Ok ==> r == Ok::<UnstakePreview, PoolError>(preview) && final(self).same_state(old(self)),
            payout matches Err(e) ==> r == Err::<UnstakePreview, PoolError>(e) && ({
                &&& final(self).same_config(old(self))
                &&& final(self).same_vesting(old(self))
                &&& final(self).same_unbonds(old(self))
                &&& final(self).same_sessions(old(self))
                &&& final(self).unbonding_total == old(self).unbonding_total
                &&& amounts(final(self).allowances@) == amounts(old(self).allowances@)
                &&& old(self).can_mint(owner, shares@) ==> old(self).minted(
                    &*final(self),
                    owner,
                    shares@,
                )
                &&& !old(self).can_mint(owner, shares@) ==> final(self).same_shares(old(self))
                &&& final(self).fees_accrued@ == sat_sub(old(self).fees_accrued@, preview.fee@)
                &&& final(self).reserve@ == sat_add(old(self).reserve@, preview.net@)
            }),
    {
        match payout {
            Ok(()) => Ok(preview),
            Err(e) => {
                self.revert_unstake(owner, shares, &preview);
                Err(e)
            },
        }
    }

    /// `Pool::request_unbond` sent by `sender`: the owner it acts for and the new entry.
    pub fn unbond_message(&mut self, sender: ActorId, shares: U256, now_ms: u64) -> (r: Result<
        (ActorId, Unbond),
        PoolError,
    >)
        requires
            old(self).quotable(),
            old(self).next_unbond_id < u64::MAX,
        ensures
            old(self).route(sender, SessionAction::Unbond, now_ms) matches Err(e) ==> r == Err::<
                (ActorId, Unbond),
                PoolError,
            >(e) && final(self).same_state(old(self)),
            old(self).route(sender, SessionAction::Unbond, now_ms) matches Ok(owner) ==> ({
                let out = match r {
                    Ok(t) => Ok::<Unbond, PoolError>(t.1),
                    Err(e) => Err::<Unbond, PoolError>(e),
                };
                &&& old(self).unbond_post(&*final(self), owner, shares, now_ms, out)
                &&& r matches Ok(t) ==> t.0 == owner
            }),
    {
        let owner = match self.actor_for(sender, SessionAction::Unbond, now_ms) {
            Ok(o) => o,
            Err(e) => return Err(e),
        };
        match self.request_unbond(owner, shares, now_ms) {
            Ok(e) => Ok((owner, e)),
            Err(e) => Err(e),
        }
    }

    /// `Pool::claim` sent by `sender`, up to the payout: the owner it acts for and the entry
    /// taken. The program then pays the entry's assets and hands the outcome to
    /// `settle_claim`.
    pub fn begin_claim(&mut self, sender: ActorId, id: u64, now_ms: u64) -> (r: Result<
        (ActorId, Unbond),
        PoolError,
    >)
        ensures
            old(self).route(sender, SessionAction::Claim, now_ms) matches Err(e) ==> r == Err::<
                (ActorId, Unbond),
                PoolError,
            >(e) && final(self).same_state(old(self)),
            old(self).route(sender, SessionAction::Claim, now_ms) matches Ok(owner) ==> ({
                let out = match r {
                    Ok(t) => Ok::<Unbond, PoolError>(t.1),
                    Err(e) => Err::<Unbond, PoolError>(e),
                };
                &&& old(self).take_post(&*final(self), owner, id, now_ms, out)
                &&& r matches Ok(t) ==> t.0 == owner
            }),
    {
        let owner = match self.actor_for(sender, SessionAction::Claim, now_ms) {
            Ok(o) => o,
            Err(e) => return Err(e),
        };
        match self.take_unbond(owner, id, now_ms) {
            Ok(e) => Ok((owner, e)),
            Err(e) => Err(e),
        }
    }

    /// The end of `Pool::claim`: a payout that went through answers the assets paid; a refused
    /// one puts the entry back and answers its error.
    pub fn settle_claim(&mut self, owner: ActorId, entry: Unbond, payout: Result<(), PoolError>) -> (r: Result<
        U256,
        PoolError,
    >)
        ensures
            payout is Ok ==> r == Ok::<U256, PoolError>(entry.assets) && final(self).same_state(old(self)),
            payout matches Err(e) ==> r == Err::<U256, PoolError>(e) && ({
                &&& final(self).same_config(old(self))
                &&& final(self).same_shares(old(self))
                &&& final(self).same_vesting(old(self))
                &&& final(self).same_sessions(old(self))
                &&& final(self).fees_accrued == old(self).fees_accrued
                &&& final(self).next_unbond_id == old(self).next_unbond_id
                &&& final(self).unbonding_total@ == sat_add(old(self).unbonding_total@, entry.assets@)
                &&& final(self).reserve@ == sat_add(old(self).reserve@, entry.assets@)
                &&& lists(final(self).unbonds@).contains_key(owner.key())
                &&& lists(final(self).unbonds@)[owner.key()].to_multiset() == list_of(
                    lists(old(self).unbonds@),
                    owner.key(),
                ).push(entry).to_multiset()
                &&& sorted_by_id(lists(final(self).unbonds@)[owner.key()])
                &&& lists(final(self).unbonds@).remove(owner.key()) == lists(
                    old(self).unbonds@,
                ).remove(owner.key())
            }),
    {
        match payout {
            Ok(()) => Ok(entry.assets),
            Err(e) => {
                self.restore_unbond(owner, entry);
                Err(e)
            },
        }
    }

    /// `Pool::fund_rewards` with `value` attached: the reserve after funding and when the
    /// tranche ends. On an error the program sends the value back.
    pub fn fund_message(&mut self, value: u128, now_ms: u64) -> (r: Result<(U256, u64), PoolError>)
        ensures
            ({
                let out = match r {
                    Ok(_) => Ok::<(), PoolError>(()),
                    Err(e) => Err::<(), PoolError>(e),
                };
                old(self).fund_post(&*final(self), value as nat, now_ms, out)
            }),
            r matches Ok(t) ==> t.0 == final(self).reserve && t.1 == final(self).vest_end_ms,
    {
        match self.fund(U256::from_u128(value), now_ms) {
            Ok(()) => Ok((self.reserve, self.vest_end_ms)),
            Err(e) => Err(e),
        }
    }

    /// `Pool::set_config` sent by `caller`: only the admin may change the configuration.
    pub fn set_config_message(
        &mut self,
        caller: ActorId,
        instant_fee_bps: u32,
        unbond_period_secs: u64,
        vesting_period_secs: u64,
    ) -> (r: Result<bool, PoolError>)
        ensures
            final(self).same_shares(old(self)),
            final(self).same_funds(old(self)),
            final(self).same_vesting(old(self)),
            final(self).same_unbonds(old(self)),
            final(self).same_sessions(old(self)),
            final(self).admin == old(self).admin,
            final(self).name == old(self).name,
            final(self).symbol == old(self).symbol,
            final(self).decimals == old(self).decimals,
            final(self).paused == old(self).paused,
            caller != old(self).admin ==> r == Err::<bool, PoolError>(PoolError::Unauthorized)
                && final(self).same_config(old(self)),
            caller == old(self).admin && !Self::config_ok(
                instant_fee_bps,
                unbond_period_secs,
                vesting_period_secs,
            ) ==> r == Err::<bool, PoolError>(PoolError::BadConfig) && final(self).same_config(
                old(self),
            ),
            caller == old(self).admin && Self::config_ok(
                instant_fee_bps,
                unbond_period_secs,
                vesting_period_secs,
            ) ==> r == Ok::<bool, PoolError>(true) && final(self).instant_fee_bps == instant_fee_bps
                && final(self).unbond_period_ms == ms_of(unbond_period_secs) && final(self).vesting_period_ms == ms_of(vesting_period_secs),
    {
        match self.ensure_admin(caller) {
            Ok(()) => {},
            Err(e) => return Err(e),
        }
        match self.set_config(instant_fee_bps, unbond_period_secs, vesting_period_secs) {
            Ok(()) => Ok(true),
            Err(e) => Err(e),
        }
    }

    /// `Pool::pause` (with `paused`) or `Pool::resume` (without), sent by `caller`.
    pub fn set_paused_message(&mut self, caller: ActorId, paused: bool) -> (r: Result<bool, PoolError>)
        ensures
            final(self).same_shares(old(self)),
            final(self).same_funds(old(self)),
            final(self).same_vesting(old(self)),
            final(self).same_unbonds(old(self)),
            final(self).same_sessions(old(self)),
            final(self).admin == old(self).admin,
            final(self).name == old(self).name,
            final(self).symbol == old(self).symbol,
            final(self).decimals == old(self).decimals,
            final(self).instant_fee_bps == old(self).instant_fee_bps,
            final(self).unbond_period_ms == old(self).unbond_period_ms,
            final(self).vesting_period_ms == old(self).vesting_period_ms,
            caller != old(self).admin ==> r == Err::<bool, PoolError>(PoolError::Unauthorized)
                && final(self).paused == old(self).paused,
            caller == old(self).admin ==> r == Ok::<bool, PoolError>(true) && final(self).paused
                == paused,
    {
        match self.ensure_admin(caller) {
            Ok(()) => {},
            Err(e) => return Err(e),
        }
        self.paused = paused;
        Ok(true)
    }

    /// `Pool::transfer_admin` sent by `caller`.
    pub fn transfer_admin_message(&mut self, caller: ActorId, to: ActorId) -> (r: Result<bool, PoolError>)
        ensures
            final(self).same_shares(old(self)),
            final(self).same_funds(old(self)),
            final(self).same_vesting(old(self)),
            final(self).same_unbonds(old(self)),
            final(self).same_sessions(old(self)),
            final(self).name == old(self).name,
            final(self).symbol == old(self).symbol,
            final(self).decimals == old(self).decimals,
            final(self).instant_fee_bps == old(self).instant_fee_bps,
            final(self).unbond_period_ms == old(self).unbond_period_ms,
            final(self).vesting_period_ms == old(self).vesting_period_ms,
            final(self).paused == old(self).paused,
            caller != old(self).admin ==> r == Err::<bool, PoolError>(PoolError::Unauthorized)
                && final(self).admin == old(self).admin,
            caller == old(self).admin && to.is_zero_spec() ==> r == Err::<bool, PoolError>(
                PoolError::ZeroAddress,
            ) && final(self).admin == old(self).admin,
            caller == old(self).admin && !to.is_zero_spec() ==> r == Ok::<bool, PoolError>(true)
                && final(self).admin == to,
    {
        match self.ensure_admin(caller) {
            Ok(()) => {},
            Err(e) => return Err(e),
        }
        if to.is_zero() {
            return Err(PoolError::ZeroAddress);
        }
        self.admin = to;
        Ok(true)
    }

    /// What `begin_collect_fees(caller, to)` does: `new` is the state after it and `r` its result.
    pub open spec fn collect_post(&self, new: &PoolState, caller: ActorId, to: ActorId, r: Result<U256, PoolError>) -> bool {
        &&& (new.same_config(self))
        &&& (new.same_shares(self))
        &&& (new.same_vesting(self))
        &&& (new.same_unbonds(self))
        &&& (new.same_sessions(self))
        &&& (new.unbonding_total == self.unbonding_total)
        &&& (caller != self.admin ==> r == Err::<U256, PoolError>(PoolError::Unauthorized)
            && new.same_state(self))
        &&& (caller == self.admin && to.is_zero_spec() ==> r == Err::<U256, PoolError>(PoolError::ZeroAddress)
            && new.same_state(self))
        &&& (caller == self.admin && !to.is_zero_spec() && self.fees_accrued@ == 0
            ==> r == Err::<U256, PoolError>(PoolError::ZeroAmount)
            && new.same_state(self))
        &&& (caller == self.admin && !to.is_zero_spec() && self.fees_accrued@ > 0
            && self.fees_accrued@ > self.reserve@ ==> r == Err::<U256, PoolError>(PoolError::InsufficientReserve { available: self.reserve })
            && new.same_state(self))
        &&& (caller == self.admin && !to.is_zero_spec() && self.fees_accrued@ > 0
            && self.fees_accrued@ <= self.reserve@ ==> r == Ok::<U256, PoolError>(self.fees_accrued)
            && new.fees_accrued@ == 0 && new.reserve@ == self.reserve@ - self.fees_accrued@)
    }

    /// `Pool::collect_fees` sent by `caller`, up to the payout: the accrued fees leave the fee
    /// bucket and the reserve. The program then pays them to `to` and hands the outcome to
    /// `settle_collect_fees`.
    pub fn begin_collect_fees(&mut self, caller: ActorId, to: ActorId) -> (r: Result<U256, PoolError>)
        ensures
            old(self).collect_post(&*final(self), caller, to, r),
    {
        match self.ensure_admin(caller) {
            Ok(()) => {},
            Err(e) => return Err(e),
        }
        if to.is_zero() {
            return Err(PoolError::ZeroAddress);
        }
        let amount = self.fees_accrued;
        if amount.is_zero() {
            return Err(PoolError::ZeroAmount);
        }
        if amount.gt(&self.reserve) {
            return Err(PoolError::InsufficientReserve { available: self.reserve });
        }
        self.fees_accrued = U256::zero();
        self.reserve = self.reserve.sub(amount);
        Ok(amount)
    }

    /// What `settle_collect_fees(amount, payout)` does: `new` is the state after it and `r` its
    /// result.
    pub open spec fn settle_fees_post(&self, new: &PoolState, amount: U256, payout: Result<(), PoolError>, r: Result<U256, PoolError>) -> bool {
        &&& (payout is Ok ==> r == Ok::<U256, PoolError>(amount) && new.same_state(self))
        &&& (payout matches Err(e) ==> r == Err::<U256, PoolError>(e)
            && new.same_config(self) && new.same_shares(self)
            && new.same_vesting(self) && new.same_unbonds(self)
            && new.same_sessions(self) && new.unbonding_total == self.unbonding_total
            && new.fees_accrued == amount && new.reserve@ == sat_add(self.reserve@, amount@))
    }

    /// The end of `Pool::collect_fees`: a payout that went through answers the amount; a
    /// refused one puts the amount back in the fee bucket and the reserve.
    pub fn settle_collect_fees(&mut self, amount: U256, payout: Result<(), PoolError>) -> (r: Result<
        U256,
        PoolError,
    >)
        ensures
            old(self).settle_fees_post(&*final(self), amount, payout, r),
    {
        match payout {
            Ok(()) => Ok(amount),
            Err(e) => {
                self.fees_accrued = amount;
                self.reserve = self.reserve.saturating_add(amount);
                Err(e)
            },
        }
    }

    /// What `rescue_surplus` may send: the program's balance (`value_available`, without the
    /// value attached to this message) beyond the reserve and the keep-alive buffer.
    pub open spec fn surplus(&self, value_available: u128, message_value: u128) -> nat {
        sat_sub(
            sat_sub(sat_sub(value_available as nat, message_value as nat), self.reserve@),
            KEEP_VARA as nat,
        )
    }

    /// `r` is what `check_rescue_surplus(caller, to, assets, value_available, message_value)`
    /// answers.
    pub open spec fn rescue_answer(
        &self,
        caller: ActorId,
        to: ActorId,
        assets: U256,
        value_available: u128,
        message_value: u128,
        r: Result<(), PoolError>,
    ) -> bool {
        if caller != self.admin {
            r == Err::<(), PoolError>(PoolError::Unauthorized)
        } else if to.is_zero_spec() {
            r == Err::<(), PoolError>(PoolError::ZeroAddress)
        } else if assets@ == 0 {
            r == Err::<(), PoolError>(PoolError::ZeroAmount)
        } else if assets@ > self.surplus(value_available, message_value) {
            r matches Err(PoolError::InsufficientReserve { available }) && available@
                == self.surplus(value_available, message_value)
        } else {
            r is Ok
        }
    }

    /// `Pool::rescue_surplus` sent by `caller`, before the payout: only the admin may send, to a
    /// real account, a positive amount no larger than the surplus.
    pub fn check_rescue_surplus(
        &self,
        caller: ActorId,
        to: ActorId,
        assets: U256,
        value_available: u128,
        message_value: u128,
    ) -> (r: Result<(), PoolError>)
        ensures
            caller != self.admin ==> r == Err::<(), PoolError>(PoolError::Unauthorized),
            caller == self.admin && to.is_zero_spec() ==> r == Err::<(), PoolError>(
                PoolError::ZeroAddress,
            ),
            caller == self.admin && !to.is_zero_spec() && assets@ == 0 ==> r == Err::<(), PoolError>(
                PoolError::ZeroAmount,
            ),
            caller == self.admin && !to.is_zero_spec() && assets@ > 0 && assets@ > self.surplus(
                value_available,
                message_value,
            ) ==> (r matches Err(PoolError::InsufficientReserve { available }) && available@
                == self.surplus(value_available, message_value)),
            caller == self.admin && !to.is_zero_spec() && assets@ > 0 && assets@ <= self.surplus(
                value_available,
                message_value,
            ) ==> r is Ok,
            self.rescue_answer(caller, to, assets, value_available, message_value, r),
    {
        match self.ensure_admin(caller) {
            Ok(()) => {},
            Err(e) => return Err(e),
        }
        if to.is_zero() {
            return Err(PoolError::ZeroAddress);
        }
        if assets.is_zero() {
            return Err(PoolError::ZeroAmount);
        }
        let free = U256::from_u128(value_available).saturating_sub(U256::from_u128(message_value));
        let available = free.saturating_sub(self.reserve).saturating_sub(U256::from_u128(KEEP_VARA));
        if assets.gt(&available) {
            return Err(PoolError::InsufficientReserve { available });
        }
        Ok(())
    }
}

} // verus!
