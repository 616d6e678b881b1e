//! The stable vault: one underlying fungible token in, a receipt token out.
//!
//! The vault is itself the receipt token: shares are a plain fungible book, and the vault
//! moves the underlying in and out against them (ERC-4626 shape). The rate (assets per share,
//! scaled by `1e18`) is `distributable / total_shares`, where `distributable` is what the vault
//! holds minus collected fees, minus assets locked for unbonds, minus rewards still vesting.
//! While no share is outstanding (or nothing is distributable) the vault prices at
//! `base_rate`, the last rate it had.
//!
//! Every function here is a pure transition of `VaultState`. The program around it makes the
//! token calls; the flows that wait for one are split in the decision taken before the call and
//! the one taken after it, which also undoes the first when the call failed.
use crate::actor::{ActorId, Key};
use crate::ledger::{
    lemma_total_empty, amount_in, amount_of, amounts, credit_in, credited, debit_in, debited, lemma_keys_ordered,
    spend_in, store_amount, with_amount, Allowances, Balances,
};
use crate::u256::{max_nat, min_nat, sat_add, sat_mul, sat_sub, u256_max, U256};
use crate::unbonds::{
    owed, entries_of, first_with, has_id, list_of, lists, position_of, push_entry, restore_entry,
    sorted_by_id, take_at, Unbond, UnbondBook,
};
use crate::vesting::{
    funded_length, funded_tranche_length, locked_at, locked_spec, ms_of, sat_add_u64, secs_to_ms,
};
use std::collections::BTreeMap;
use vstd::prelude::*;

verus! {

broadcast use vstd::std_specs::btree::group_btree_axioms, crate::u256::lemma_u256_bounded;

pub const BPS: u64 = 10_000;

pub const YEAR_SECS: u64 = 31_536_000;

/// Smallest deposit in base units, so share rounding can never produce zero.
pub const MIN_DEPOSIT: u64 = 1_000;

pub const MAX_FEE_BPS: u32 = 1_000;

/// Unbonds mature within a year at most.
pub const MAX_UNBOND_SECS: u64 = 365 * 86_400;

/// Rewards vest over at least an hour and at most a year.
pub const MIN_VESTING_SECS: u64 = 3_600;

pub const MAX_VESTING_SECS: u64 = 365 * 86_400;

/// Longest session a user may register.
pub const MAX_SESSION_SECS: u64 = 30 * 86_400;

/// Gas handed to each call into the underlying token.
pub const TOKEN_CALL_GAS: u64 = 6_000_000_000;

/// Gas a caller must still have when an async command starts, so the segment that runs after
/// the token reply never runs out of gas with funds already moved.
pub const GAS_ONE_CALL: u64 = 40_000_000_000;

/// The rate scale, 1e18.
pub open spec fn scale_nat() -> nat {
    1_000_000_000_000_000_000
}

/// The rate scale, 1e18.
pub fn scale() -> (r: U256)
    ensures
        r@ == scale_nat(),
{
    U256::from_u64(1_000_000_000_000_000_000)
}

#[derive(Clone, Debug, PartialEq, Eq)]
pub enum VaultError {
    Paused,
    ZeroAddress,
    ZeroAmount,
    BelowMinimum { min: U256 },
    InsufficientShares,
    InsufficientBalance,
    InsufficientAllowance,
    /// The vault's distributable assets cannot cover this payout; nothing changed.
    InsufficientReserve { available: U256 },
    Unauthorized,
    Overflow,
    BadConfig,
    UnbondNotFound,
    UnbondNotReady { claimable_at: u64 },
    /// The underlying token rejected the transfer (allowance, balance, paused).
    TokenRejected(String),
    /// The cross-program call failed to complete (timeout, transport, panic).
    TokenCall(String),
    /// The message carried less gas than the async flow needs; nothing was moved.
    NotEnoughGas { required: u64 },
    /// The session key acting for the owner has expired.
    SessionExpired,
    /// The session key acting for the owner may not perform this action.
    SessionNotAllowed,
    /// Session key, duration or action list is invalid, or no matching proposal exists.
    BadSession,
}

/// Actions a session key may perform for its owner.
#[derive(Clone, Copy, Debug, PartialEq, Eq, Structural)]
pub enum SessionAction {
    Deposit,
    Redeem,
    Unbond,
    Claim,
}

/// A session key registered by an owner: messages signed by `key` act for the owner until
/// `expires_at`. A session is proposed by the owner and takes effect once the key accepts it.
#[derive(Clone, Debug, PartialEq, Eq)]
pub struct Session {
    pub key: ActorId,
    pub expires_at: u64,
    pub actions: Vec<SessionAction>,
}

impl View for Session {
    type V = (ActorId, u64, Seq<SessionAction>);

    open spec fn view(&self) -> (ActorId, u64, Seq<SessionAction>) {
        (self.key, self.expires_at, self.actions@)
    }
}

impl Session {
    /// A copy with the same key, expiry and actions.
    pub fn duplicate(&self) -> (r: Session)
        ensures
            r@ == self@,
    {
        let actions = self.actions.clone();
        assert(actions@ =~= self.actions@);
        Session { key: self.key, expires_at: self.expires_at, actions }
    }

    /// Whether the session allows `action`.
    pub fn allows(&self, action: SessionAction) -> (r: bool)
        ensures
            r == self.actions@.contains(action),
    {
        let mut i: usize = 0;
        while i < self.actions.len()
            invariant
                i <= self.actions@.len(),
                forall|j: int| 0 <= j < i ==> self.actions@[j] != action,
            decreases self.actions@.len() - i,
        {
            if self.actions[i] == action {
                assert(self.actions@[i as int] == action);
                return true;
            }
            i = i + 1;
        }
        false
    }
}

/// The sessions of a book, by their contents.
pub open spec fn session_views(m: Map<Key, Session>) -> Map<Key, (ActorId, u64, Seq<SessionAction>)> {
    m.map_values(|s: Session| s@)
}

#[derive(Clone, Copy, Debug, PartialEq, Eq, Structural)]
pub struct RedeemPreview {
    pub assets: U256,
    pub fee: U256,
    pub net: U256,
}

#[derive(Clone, Copy, Debug, PartialEq, Eq, Structural)]
pub struct Position {
    pub shares: U256,
    pub assets: U256,
}

#[derive(Clone, Debug, PartialEq, Eq)]
pub struct VaultInfo {
    pub underlying: ActorId,
    pub admin: ActorId,
    pub name: String,
    pub symbol: String,
    pub decimals: u8,
    /// Assets per share scaled by 1e18: distributable assets over shares, now.
    pub rate: U256,
    /// Annualised release rate of the rewards currently vesting, over distributable assets.
    pub apy_bps: u32,
    pub instant_fee_bps: u32,
    pub unbond_period_secs: u64,
    pub vesting_period_secs: u64,
    pub total_shares: U256,
    /// Assets owed to share holders: the distributable amount.
    pub total_assets: U256,
    /// Underlying the vault holds (deposits, rewards, fees, unbonds).
    pub holdings: U256,
    /// Holdings minus fees, unbonds and rewards still vesting.
    pub distributable: U256,
    /// Rewards not yet released.
    pub locked_rewards: U256,
    /// When the current tranche is fully vested (0 when nothing is vesting).
    pub vesting_ends_at: u64,
    pub fees_accrued: U256,
    pub unbonding_total: U256,
    pub min_deposit: U256,
    pub paused: bool,
}

pub struct VaultState {
    pub admin: ActorId,
    pub underlying: ActorId,
    pub name: String,
    pub symbol: String,
    pub decimals: u8,
    pub total_shares: U256,
    pub balances: Balances,
    pub allowances: Allowances,
    /// Rate used while the vault holds no shares: the constructor's initial rate, then the last
    /// rate seen before the vault emptied.
    pub base_rate: U256,
    pub instant_fee_bps: u32,
    pub unbond_period_ms: u64,
    pub vesting_period_ms: u64,
    /// Underlying the vault holds and has accounted for. A plain token transfer to the vault is
    /// invisible here.
    pub holdings: U256,
    pub fees_accrued: U256,
    pub unbonding_total: U256,
    /// The rewards tranche currently vesting: `vest_amount` is released linearly between
    /// `vest_start_ms` and `vest_end_ms`.
    pub vest_amount: U256,
    pub vest_start_ms: u64,
    pub vest_end_ms: u64,
    pub paused: bool,
    pub unbonds: UnbondBook,
    pub next_unbond_id: u64,
    /// owner -> active session
    pub sessions: BTreeMap<Key, Session>,
    /// session key -> owner (active sessions only)
    pub session_keys: BTreeMap<Key, ActorId>,
    /// owner -> proposed session, waiting for the key to accept
    pub pending_sessions: BTreeMap<Key, Session>,
}

// --- the model -----------------------------------------------------------------------------

impl VaultState {
    pub open spec fn same_config(&self, o: &VaultState) -> bool {
        &&& self.admin == o.admin
        &&& self.underlying == o.underlying
        &&& self.name == o.name
        &&& self.symbol == o.symbol
        &&& self.decimals == o.decimals
        &&& self.instant_fee_bps == o.instant_fee_bps
        &&& self.unbond_period_ms == o.unbond_period_ms
        &&& self.vesting_period_ms == o.vesting_period_ms
        &&& self.paused == o.paused
    }

    pub open spec fn same_shares(&self, o: &VaultState) -> bool {
        &&& self.total_shares == o.total_shares
        &&& amounts(self.balances@) == amounts(o.balances@)
        &&& amounts(self.allowances@) == amounts(o.allowances@)
        &&& self.base_rate == o.base_rate
    }

    pub open spec fn same_funds(&self, o: &VaultState) -> bool {
        &&& self.holdings == o.holdings
        &&& self.fees_accrued == o.fees_accrued
        &&& self.unbonding_total == o.unbonding_total
    }

    pub open spec fn same_vesting(&self, o: &VaultState) -> bool {
        &&& self.vest_amount == o.vest_amount
        &&& self.vest_start_ms == o.vest_start_ms
        &&& self.vest_end_ms == o.vest_end_ms
    }

    pub open spec fn same_unbonds(&self, o: &VaultState) -> bool {
        &&& lists(self.unbonds@) == lists(o.unbonds@)
        &&& self.next_unbond_id == o.next_unbond_id
    }

    pub open spec fn same_sessions(&self, o: &VaultState) -> bool {
        &&& session_views(self.sessions@) == session_views(o.sessions@)
        &&& self.session_keys@ == o.session_keys@
        &&& session_views(self.pending_sessions@) == session_views(o.pending_sessions@)
    }

    /// Every field holds what it held in `o` (books compared by their contents).
    pub open spec fn same_state(&self, o: &VaultState) -> bool {
        &&& self.same_config(o)
        &&& self.same_shares(o)
        &&& self.same_funds(o)
        &&& self.same_vesting(o)
        &&& self.same_unbonds(o)
        &&& self.same_sessions(o)
    }

    /// Shares held by `who`.
    pub open spec fn balance(&self, who: ActorId) -> nat {
        amount_of(amounts(self.balances@), who.key())
    }

    /// What `spender` may still move of `owner`'s shares.
    pub open spec fn allowance_of(&self, owner: ActorId, spender: ActorId) -> nat {
        amount_of(amounts(self.allowances@), (owner.key(), spender.key()))
    }

    /// Rewards not yet released at `now`.
    pub open spec fn locked(&self, now: u64) -> nat {
        locked_spec(self.vest_amount@, self.vest_start_ms, self.vest_end_ms, now)
    }

    /// Assets that belong to share holders at `now`.
    pub open spec fn distributable_at(&self, now: u64) -> nat {
        sat_sub(
            sat_sub(sat_sub(self.holdings@, self.fees_accrued@), self.unbonding_total@),
            self.locked(now),
        )
    }

    /// The vault prices at `base_rate`: no share is outstanding or nothing is distributable.
    pub open spec fn empty_at(&self, now: u64) -> bool {
        self.total_shares@ == 0 || self.distributable_at(now) == 0
    }

    /// Assets per share scaled by 1e18.
    pub open spec fn rate(&self, now: u64) -> nat {
        if self.empty_at(now) {
            self.base_rate@
        } else {
            sat_mul(self.distributable_at(now), scale_nat()) / self.total_shares@
        }
    }

    /// Shares `assets` buy at `now`, rounded down; `None` when the product overflows.
    pub open spec fn shares_quote(&self, assets: nat, now: u64) -> Option<nat> {
        if self.empty_at(now) {
            if assets * scale_nat() > u256_max() {
                None
            } else {
                Some(assets * scale_nat() / self.base_rate@)
            }
        } else if assets * self.total_shares@ > u256_max() {
            None
        } else {
            Some(assets * self.total_shares@ / self.distributable_at(now))
        }
    }

    /// A share quote for `assets` at `now` never divides by a zero base rate.
    pub open spec fn can_price(&self, assets: nat, now: u64) -> bool {
        self.empty_at(now) && assets * scale_nat() <= u256_max() ==> self.base_rate@ > 0
    }

    /// Assets `shares` are worth at `now`, rounded down; `None` when the product overflows.
    pub open spec fn assets_quote(&self, shares: nat, now: u64) -> Option<nat> {
        if self.empty_at(now) {
            if shares * self.base_rate@ > u256_max() {
                None
            } else {
                Some(shares * self.base_rate@ / scale_nat())
            }
        } else if shares * self.distributable_at(now) > u256_max() {
            None
        } else {
            Some(shares * self.distributable_at(now) / self.total_shares@)
        }
    }

    /// The instant exit fee on `assets`.
    pub open spec fn fee_on(&self, assets: nat) -> nat {
        sat_mul(assets, self.instant_fee_bps as nat) / (BPS as nat)
    }

    /// The instant fee never exceeds what it is taken from, for any quote at `now`.
    pub open spec fn fee_fits(&self, shares: nat, now: u64) -> bool {
        self.assets_quote(shares, now) matches Some(a) ==> self.fee_on(a) <= a
    }
}

// --- construction and quotes ---------------------------------------------------------------

impl VaultState {
    /// A fresh vault over `underlying`. The fee, unbond period and vesting period are clamped to
    /// their bounds; a rate below 1.0 starts the vault at 1.0.
    pub fn new(
        admin: ActorId,
        underlying: ActorId,
        name: String,
        symbol: String,
        decimals: u8,
        instant_fee_bps: u32,
        unbond_period_secs: u64,
        vesting_period_secs: u64,
        initial_rate: U256,
    ) -> (r: VaultState)
        ensures
            r.admin == admin,
            r.underlying == underlying,
            r.name == name,
            r.symbol == symbol,
            r.decimals == decimals,
            r.total_shares@ == 0,
            r.balances@ == Map::<Key, U256>::empty(),
            r.allowances@ == Map::<(Key, Key), U256>::empty(),
            r.base_rate@ == max_nat(initial_rate@, scale_nat()),
            r.instant_fee_bps == min_nat(instant_fee_bps as nat, MAX_FEE_BPS as nat),
            r.unbond_period_ms == ms_of(min_nat(unbond_period_secs as nat, MAX_UNBOND_SECS as nat) as u64),
            r.vesting_period_ms == ms_of(
                max_nat(
                    min_nat(vesting_period_secs as nat, MAX_VESTING_SECS as nat),
                    MIN_VESTING_SECS as nat,
                ) as u64,
            ),
            r.holdings@ == 0,
            r.fees_accrued@ == 0,
            r.unbonding_total@ == 0,
            r.vest_amount@ == 0,
            r.vest_start_ms == 0,
            r.vest_end_ms == 0,
            !r.paused,
            r.unbonds@ == Map::<Key, Vec<Unbond>>::empty(),
            r.next_unbond_id == 1,
            r.sessions@ == Map::<Key, Session>::empty(),
            r.session_keys@ == Map::<Key, ActorId>::empty(),
            r.pending_sessions@ == Map::<Key, Session>::empty(),
            r.shares_consistent(),
            r.unbonds_consistent(),
            r.sessions_consistent(),
            forall|now: u64| #[trigger] r.solvent(now),
            forall|now: u64| #[trigger] r.backed(now),
            forall|now: u64| #[trigger] r.above_base(now),
    {
        let sc = scale();
        let base_rate = if initial_rate.lt(&sc) { sc } else { initial_rate };
        let fee = if instant_fee_bps < MAX_FEE_BPS { instant_fee_bps } else { MAX_FEE_BPS };
        let unbond = if unbond_period_secs < MAX_UNBOND_SECS { unbond_period_secs } else { MAX_UNBOND_SECS };
        let vesting = if vesting_period_secs < MIN_VESTING_SECS {
            MIN_VESTING_SECS
        } else if vesting_period_secs > MAX_VESTING_SECS {
            MAX_VESTING_SECS
        } else {
            vesting_period_secs
        };
        let r = VaultState {
            admin,
            underlying,
            name,
            symbol,
            decimals,
            total_shares: U256::zero(),
            balances: BTreeMap::new(),
            allowances: BTreeMap::new(),
            base_rate,
            instant_fee_bps: fee,
            unbond_period_ms: secs_to_ms(unbond),
            vesting_period_ms: secs_to_ms(vesting),
            holdings: U256::zero(),
            fees_accrued: U256::zero(),
            unbonding_total: U256::zero(),
            vest_amount: U256::zero(),
            vest_start_ms: 0,
            vest_end_ms: 0,
            paused: false,
            unbonds: BTreeMap::new(),
            next_unbond_id: 1,
            sessions: BTreeMap::new(),
            session_keys: BTreeMap::new(),
            pending_sessions: BTreeMap::new(),
        };
        proof {
            lemma_total_empty::<Key>();
            assert(amounts(r.balances@) =~= Map::<Key, nat>::empty());
            assert(owed(lists(r.unbonds@)) =~= Map::<Key, nat>::empty());
            assert(lists(r.unbonds@) =~= Map::<Key, Seq<Unbond>>::empty());
        }
        r
    }

    /// Rewards of the current tranche not yet released at `now_ms`.
    pub fn locked_rewards(&self, now_ms: u64) -> (r: U256)
        ensures
            r@ == self.locked(now_ms),
    {
        locked_at(self.vest_amount, self.vest_start_ms, self.vest_end_ms, now_ms)
    }

    /// Assets that belong to share holders right now.
    pub fn distributable(&self, now_ms: u64) -> (r: U256)
        ensures
            r@ == self.distributable_at(now_ms),
    {
        self.holdings.saturating_sub(self.fees_accrued).saturating_sub(self.unbonding_total).saturating_sub(
            self.locked_rewards(now_ms),
        )
    }

    /// Assets per share scaled by 1e18 at `now_ms`.
    pub fn rate_at(&self, now_ms: u64) -> (r: U256)
        ensures
            r@ == self.rate(now_ms),
    {
        let d = self.distributable(now_ms);
        if self.total_shares.is_zero() || d.is_zero() {
            return self.base_rate;
        }
        d.saturating_mul(scale()).div(self.total_shares)
    }

    /// Shares minted for `assets` at `now_ms` (rounded down, in the vault's favour).
    pub fn shares_for(&self, assets: U256, now_ms: u64) -> (r: Result<U256, VaultError>)
        requires
            self.can_price(assets@, now_ms),
        ensures
            match self.shares_quote(assets@, now_ms) {
                Some(q) => r matches Ok(v) && v@ == q,
                None => r == Err::<U256, VaultError>(VaultError::Overflow),
            },
    {
        let d = self.distributable(now_ms);
        if self.total_shares.is_zero() || d.is_zero() {
            return match assets.checked_mul(scale()) {
                Some(v) => Ok(v.div(self.base_rate)),
                None => Err(VaultError::Overflow),
            };
        }
        match assets.checked_mul(self.total_shares) {
            Some(v) => Ok(v.div(d)),
            None => Err(VaultError::Overflow),
        }
    }

    /// Assets owed for `shares` at `now_ms` (rounded down, in the vault's favour).
    pub fn assets_for(&self, shares: U256, now_ms: u64) -> (r: Result<U256, VaultError>)
        ensures
            match self.assets_quote(shares@, now_ms) {
                Some(q) => r matches Ok(v) && v@ == q,
                None => r == Err::<U256, VaultError>(VaultError::Overflow),
            },
    {
        let d = self.distributable(now_ms);
        if self.total_shares.is_zero() || d.is_zero() {
            return match shares.checked_mul(self.base_rate) {
                Some(v) => Ok(v.div(scale())),
                None => Err(VaultError::Overflow),
            };
        }
        match shares.checked_mul(d) {
            Some(v) => Ok(v.div(self.total_shares)),
            None => Err(VaultError::Overflow),
        }
    }

    /// What share holders own: zero while no share is outstanding.
    pub fn total_assets(&self, now_ms: u64) -> (r: U256)
        ensures
            r@ == (if self.total_shares@ == 0 { 0 } else { self.distributable_at(now_ms) }),
    {
        if self.total_shares.is_zero() {
            U256::zero()
        } else {
            self.distributable(now_ms)
        }
    }

    /// Whether `apy_bps` reports zero without looking at the tranche's length.
    pub open spec fn apy_is_zero(&self, now: u64) -> bool {
        self.vest_amount@ == 0 || now >= self.vest_end_ms || self.distributable_at(now) == 0
            || self.total_shares@ == 0
    }

    /// The annualised release rate of the running tranche, in bps, before it is capped.
    pub open spec fn apy_raw(&self, now: u64) -> nat {
        sat_mul(sat_mul(self.vest_amount@, (YEAR_SECS * 1000) as nat), BPS as nat) / sat_mul(
            (self.vest_end_ms - self.vest_start_ms) as nat,
            self.distributable_at(now),
        )
    }

    pub open spec fn apy(&self, now: u64) -> u32 {
        if self.apy_is_zero(now) {
            0
        } else if self.apy_raw(now) > u32::MAX {
            u32::MAX
        } else {
            self.apy_raw(now) as u32
        }
    }

    /// Annualised release rate of the vesting tranche over distributable assets, in bps.
    pub fn apy_bps(&self, now_ms: u64) -> (r: u32)
        requires
            self.apy_is_zero(now_ms) || self.vest_start_ms < self.vest_end_ms,
        ensures
            r == self.apy(now_ms),
    {
        let d = self.distributable(now_ms);
        if self.vest_amount.is_zero() || now_ms >= self.vest_end_ms || d.is_zero()
            || self.total_shares.is_zero() {
            return 0;
        }
        let span = U256::from_u64(self.vest_end_ms - self.vest_start_ms);
        let den = span.saturating_mul(d);
        proof {
            assert(span@ >= 1 && d@ >= 1);
            assert(span@ * d@ >= 1) by (nonlinear_arith)
                requires
                    span@ >= 1,
                    d@ >= 1,
            ;
        }
        let bps = self.vest_amount.saturating_mul(U256::from_u64(YEAR_SECS * 1000)).saturating_mul(
            U256::from_u64(BPS),
        ).div(den);
        if bps.gt(&U256::from_u32(u32::MAX)) {
            u32::MAX
        } else {
            bps.low_u32()
        }
    }

    /// Whether a share quote for `assets` at `now_ms` is defined (see `can_price`).
    pub fn prices(&self, assets: U256, now_ms: u64) -> (r: bool)
        ensures
            r == self.can_price(assets@, now_ms),
    {
        let empty = self.total_shares.is_zero() || self.distributable(now_ms).is_zero();
        let fits = match assets.checked_mul(scale()) {
            Some(_) => true,
            None => false,
        };
        !(empty && fits) || !self.base_rate.is_zero()
    }

    /// Whether the instant fee on an exit of `shares` at `now_ms` stays within its assets.
    pub fn fee_fits_at(&self, shares: U256, now_ms: u64) -> (r: bool)
        ensures
            r == self.fee_fits(shares@, now_ms),
    {
        match self.assets_for(shares, now_ms) {
            Ok(a) => a.saturating_mul(U256::from_u32(self.instant_fee_bps)).div(U256::from_u64(BPS)).le(&a),
            Err(_) => true,
        }
    }

    /// Whether `apy_bps` can compute its ratio at `now_ms`.
    pub fn apy_defined(&self, now_ms: u64) -> (r: bool)
        ensures
            r == (self.apy_is_zero(now_ms) || self.vest_start_ms < self.vest_end_ms),
    {
        self.vest_amount.is_zero() || now_ms >= self.vest_end_ms || self.distributable(now_ms).is_zero()
            || self.total_shares.is_zero() || self.vest_start_ms < self.vest_end_ms
    }

    /// Assets, fee and net payout of an instant exit of `shares` at `now_ms`.
    pub fn preview_redeem(&self, shares: U256, now_ms: u64) -> (r: Result<RedeemPreview, VaultError>)
        requires
            self.fee_fits(shares@, now_ms),
        ensures
            match self.assets_quote(shares@, now_ms) {
                Some(a) => r matches Ok(p) && p.assets@ == a && p.fee@ == self.fee_on(a) && p.net@ == a
                    - self.fee_on(a),
                None => r == Err::<RedeemPreview, VaultError>(VaultError::Overflow),
            },
    {
        let assets = match self.assets_for(shares, now_ms) {
            Ok(a) => a,
            Err(e) => return Err(e),
        };
        let fee = assets.saturating_mul(U256::from_u32(self.instant_fee_bps)).div(U256::from_u64(BPS));
        Ok(RedeemPreview { assets, fee, net: assets.sub(fee) })
    }
}

// --- the receipt token ---------------------------------------------------------------------

impl VaultState {
    /// Shares held by `who`.
    pub fn balance_of(&self, who: &ActorId) -> (r: U256)
        ensures
            r@ == self.balance(*who),
    {
        proof {
            lemma_keys_ordered();
        }
        amount_in(&self.balances, &who.key())
    }

    /// What `spender` may still move of `owner`'s shares.
    pub fn allowance(&self, owner: &ActorId, spender: &ActorId) -> (r: U256)
        ensures
            r@ == self.allowance_of(*owner, *spender),
    {
        proof {
            lemma_keys_ordered();
        }
        amount_in(&self.allowances, &(owner.key(), spender.key()))
    }

    fn ensure_live(&self) -> (r: Result<(), VaultError>)
        ensures
            self.paused ==> r == Err::<(), VaultError>(VaultError::Paused),
            !self.paused ==> r is Ok,
    {
        if self.paused {
            Err(VaultError::Paused)
        } else {
            Ok(())
        }
    }

    /// Move `value` shares from `from` to `to`.
    pub fn transfer_shares(&mut self, from: ActorId, to: ActorId, value: U256) -> (r: Result<
        (),
        VaultError,
    >)
        ensures
            old(self).transfer_post(&*final(self), from, to, value@, r),
    {
        proof {
            lemma_keys_ordered();
        }
        if self.paused {
            return Err(VaultError::Paused);
        }
        if to.is_zero() {
            return Err(VaultError::ZeroAddress);
        }
        if value.is_zero() {
            return Err(VaultError::ZeroAmount);
        }
        if !debit_in(&mut self.balances, from.key(), value) {
            return Err(VaultError::InsufficientBalance);
        }
        if !credit_in(&mut self.balances, to.key(), value) {
            return Err(VaultError::Overflow);
        }
        Ok(())
    }

    /// Let `spender` move up to `value` of `owner`'s shares; zero clears the allowance.
    pub fn approve_shares(&mut self, owner: ActorId, spender: ActorId, value: U256) -> (r: Result<
        (),
        VaultError,
    >)
        ensures
            final(self).same_config(old(self)),
            final(self).same_funds(old(self)),
            final(self).same_vesting(old(self)),
            final(self).same_unbonds(old(self)),
            final(self).same_sessions(old(self)),
            final(self).total_shares == old(self).total_shares,
            final(self).base_rate == old(self).base_rate,
            amounts(final(self).balances@) == amounts(old(self).balances@),
            old(self).paused ==> r == Err::<(), VaultError>(VaultError::Paused) && amounts(
                final(self).allowances@,
            ) == amounts(old(self).allowances@),
            !old(self).paused && spender.is_zero_spec() ==> r == Err::<(), VaultError>(
                VaultError::ZeroAddress,
            ) && amounts(final(self).allowances@) == amounts(old(self).allowances@),
            !old(self).paused && !spender.is_zero_spec() ==> r is Ok && amounts(
                final(self).allowances@,
            ) == with_amount(amounts(old(self).allowances@), (owner.key(), spender.key()), value@),
    {
        proof {
            lemma_keys_ordered();
        }
        if self.paused {
            return Err(VaultError::Paused);
        }
        if spender.is_zero() {
            return Err(VaultError::ZeroAddress);
        }
        store_amount(&mut self.allowances, (owner.key(), spender.key()), value);
        Ok(())
    }

    /// Spend `value` of what `spender` may move for `owner`; an allowance of 2^256 - 1 is never
    /// spent.
    pub fn spend_allowance(&mut self, owner: ActorId, spender: ActorId, value: U256) -> (r: Result<
        (),
        VaultError,
    >)
        ensures
            final(self).same_config(old(self)),
            final(self).same_funds(old(self)),
            final(self).same_vesting(old(self)),
            final(self).same_unbonds(old(self)),
            final(self).same_sessions(old(self)),
            final(self).total_shares == old(self).total_shares,
            final(self).base_rate == old(self).base_rate,
            amounts(final(self).balances@) == amounts(old(self).balances@),
            old(self).allowance_of(owner, spender) == u256_max() ==> r is Ok && amounts(
                final(self).allowances@,
            ) == amounts(old(self).allowances@),
            old(self).allowance_of(owner, spender) != u256_max() && value@ > old(self).allowance_of(
                owner,
                spender,
            ) ==> r == Err::<(), VaultError>(VaultError::InsufficientAllowance) && amounts(
                final(self).allowances@,
            ) == amounts(old(self).allowances@),
            old(self).allowance_of(owner, spender) != u256_max() && value@ <= old(self).allowance_of(owner, spender) ==> r is Ok && amounts(final(self).allowances@)
                == debited(amounts(old(self).allowances@), (owner.key(), spender.key()), value@),
    {
        proof {
            lemma_keys_ordered();
        }
        if spend_in(&mut self.allowances, (owner.key(), spender.key()), value) {
            Ok(())
        } else {
            Err(VaultError::InsufficientAllowance)
        }
    }

    /// Create `value` shares for `to`.
    pub fn mint_shares(&mut self, to: ActorId, value: U256) -> (r: Result<(), VaultError>)
        ensures
            final(self).same_config(old(self)),
            final(self).same_funds(old(self)),
            final(self).same_vesting(old(self)),
            final(self).same_unbonds(old(self)),
            final(self).same_sessions(old(self)),
            final(self).base_rate == old(self).base_rate,
            amounts(final(self).allowances@) == amounts(old(self).allowances@),
            old(self).total_shares@ + value@ <= u256_max() && old(self).balance(to) + value@
                <= u256_max() ==> r is Ok && final(self).total_shares@ == old(self).total_shares@
                + value@ && amounts(final(self).balances@) == credited(
                amounts(old(self).balances@),
                to.key(),
                value@,
            ),
            !(old(self).total_shares@ + value@ <= u256_max() && old(self).balance(to) + value@
                <= u256_max()) ==> r == Err::<(), VaultError>(VaultError::Overflow)
                && final(self).total_shares == old(self).total_shares && amounts(
                final(self).balances@,
            ) == amounts(old(self).balances@),
    {
        proof {
            lemma_keys_ordered();
        }
        let supply = match self.total_shares.checked_add(value) {
            Some(v) => v,
            None => return Err(VaultError::Overflow),
        };
        if !credit_in(&mut self.balances, to.key(), value) {
            return Err(VaultError::Overflow);
        }
        self.total_shares = supply;
        Ok(())
    }

    /// Burn `value` shares of `from`. When the last share goes, the vault remembers its rate for
    /// the empty spell.
    pub fn burn_shares(&mut self, from: ActorId, value: U256, now_ms: u64) -> (r: Result<
        (),
        VaultError,
    >)
        ensures
            final(self).same_config(old(self)),
            final(self).same_funds(old(self)),
            final(self).same_vesting(old(self)),
            final(self).same_unbonds(old(self)),
            final(self).same_sessions(old(self)),
            amounts(final(self).allowances@) == amounts(old(self).allowances@),
            value@ == 0 ==> r == Err::<(), VaultError>(VaultError::ZeroAmount) && final(self).same_shares(old(self)),
            value@ > 0 && value@ > old(self).balance(from) ==> r == Err::<(), VaultError>(
                VaultError::InsufficientShares,
            ) && final(self).same_shares(old(self)),
            value@ > 0 && value@ <= old(self).balance(from) ==> amounts(final(self).balances@)
                == debited(amounts(old(self).balances@), from.key(), value@),
            value@ > 0 && value@ <= old(self).balance(from) && old(self).total_shares@ < value@
                ==> r == Err::<(), VaultError>(VaultError::Overflow) && final(self).total_shares
                == old(self).total_shares && final(self).base_rate == old(self).base_rate,
            value@ > 0 && value@ <= old(self).balance(from) && old(self).total_shares@ >= value@
                ==> r is Ok && final(self).total_shares@ == old(self).total_shares@ - value@ && (
                if old(self).total_shares@ == value@ {
                    final(self).base_rate@ == old(self).rate(now_ms)
                } else {
                    final(self).base_rate == old(self).base_rate
                }),
    {
        proof {
            lemma_keys_ordered();
        }
        if value.is_zero() {
            return Err(VaultError::ZeroAmount);
        }
        let rate_before = self.rate_at(now_ms);
        if !debit_in(&mut self.balances, from.key(), value) {
            return Err(VaultError::InsufficientShares);
        }
        self.total_shares = match self.total_shares.checked_sub(value) {
            Some(v) => v,
            None => return Err(VaultError::Overflow),
        };
        if self.total_shares.is_zero() {
            self.base_rate = rate_before;
        }
        Ok(())
    }
}

// --- vault flows ----------------------------------------------------------------------------

impl VaultState {
    /// What `transfer_shares(from, to, value)` does: `new` is the state after it and `r` its
    /// result.
    pub open spec fn transfer_post(&self, new: &VaultState, from: ActorId, to: ActorId, value: nat, r: Result<(), VaultError>) -> bool {
        &&& new.same_config(self)
        &&& new.same_funds(self)
        &&& new.same_vesting(self)
        &&& new.same_unbonds(self)
        &&& new.same_sessions(self)
        &&& new.total_shares == self.total_shares
        &&& new.base_rate == self.base_rate
        &&& amounts(new.allowances@) == amounts(self.allowances@)
        &&& if self.paused {
            r == Err::<(), VaultError>(VaultError::Paused) && amounts(new.balances@) == amounts(self.balances@)
        } else if to.is_zero_spec() {
            r == Err::<(), VaultError>(VaultError::ZeroAddress) && amounts(new.balances@) == amounts(
                self.balances@,
            )
        } else if value == 0 {
            r == Err::<(), VaultError>(VaultError::ZeroAmount) && amounts(new.balances@) == amounts(
                self.balances@,
            )
        } else if value > self.balance(from) {
            r == Err::<(), VaultError>(VaultError::InsufficientBalance) && amounts(new.balances@) == amounts(
                self.balances@,
            )
        } else {
            let mid = debited(amounts(self.balances@), from.key(), value);
            if amount_of(mid, to.key()) + value <= u256_max() {
                r is Ok && amounts(new.balances@) == credited(mid, to.key(), value)
            } else {
                r == Err::<(), VaultError>(VaultError::Overflow) && amounts(new.balances@) == mid
            }
        }
    }

    /// What undoing an instant exit (`shares` burned, `fee` kept, `net` paid) does: `new` is
    /// the state after it.
    pub open spec fn revert_post(&self, new: &VaultState, owner: ActorId, shares: nat, fee: nat, net: nat) -> bool {
        &&& new.same_config(self)
        &&& new.same_vesting(self)
        &&& new.same_unbonds(self)
        &&& new.same_sessions(self)
        &&& new.unbonding_total == self.unbonding_total
        &&& amounts(new.allowances@) == amounts(self.allowances@)
        &&& self.can_mint(owner, shares) ==> self.minted(new, owner, shares)
        &&& !self.can_mint(owner, shares) ==> new.same_shares(self)
        &&& new.fees_accrued@ == sat_sub(self.fees_accrued@, fee)
        &&& new.holdings@ == sat_add(self.holdings@, net)
    }

    /// What `restore_unbond(owner, entry)` does: `new` is the state after it.
    pub open spec fn restore_post(&self, new: &VaultState, owner: ActorId, entry: Unbond) -> bool {
        &&& new.same_config(self)
        &&& new.same_shares(self)
        &&& new.same_vesting(self)
        &&& new.same_sessions(self)
        &&& new.fees_accrued == self.fees_accrued
        &&& new.next_unbond_id == self.next_unbond_id
        &&& new.unbonding_total@ == sat_add(self.unbonding_total@, entry.assets@)
        &&& new.holdings@ == sat_add(self.holdings@, entry.assets@)
        &&& lists(new.unbonds@).contains_key(owner.key())
        &&& lists(new.unbonds@)[owner.key()].to_multiset() == list_of(
            lists(self.unbonds@),
            owner.key(),
        ).push(entry).to_multiset()
        &&& sorted_by_id(lists(new.unbonds@)[owner.key()])
        &&& lists(new.unbonds@).remove(owner.key()) == lists(self.unbonds@).remove(owner.key())
    }

    /// `new` is `self` after `mint_shares(to, value)` succeeded.
    pub open spec fn minted(&self, new: &VaultState, to: ActorId, value: nat) -> bool {
        &&& new.total_shares@ == self.total_shares@ + value
        &&& amounts(new.balances@) == credited(amounts(self.balances@), to.key(), value)
        &&& new.base_rate == self.base_rate
    }

    /// `mint_shares(to, value)` succeeds on `self`.
    pub open spec fn can_mint(&self, to: ActorId, value: nat) -> bool {
        self.total_shares@ + value <= u256_max() && self.balance(to) + value <= u256_max()
    }

    /// `new` is `self` after `burn_shares(from, value, now)` succeeded.
    pub open spec fn burned(&self, new: &VaultState, from: ActorId, value: nat, now: u64) -> bool {
        &&& amounts(new.balances@) == debited(amounts(self.balances@), from.key(), value)
        &&& new.total_shares@ == self.total_shares@ - value
        &&& if self.total_shares@ == value {
            new.base_rate@ == self.rate(now)
        } else {
            new.base_rate == self.base_rate
        }
    }

    /// Fees after the sweep a deposit settles first: what is distributable with no share
    /// outstanding belongs to nobody and goes to the fee bucket.
    pub open spec fn swept_fees(&self, now: u64) -> nat {
        if self.total_shares@ == 0 {
            sat_add(self.fees_accrued@, self.distributable_at(now))
        } else {
            self.fees_accrued@
        }
    }

    fn sweep_orphans(&mut self, now_ms: u64)
        ensures
            final(self).fees_accrued@ == old(self).swept_fees(now_ms),
            final(self).same_config(old(self)),
            final(self).same_shares(old(self)),
            final(self).holdings == old(self).holdings,
            final(self).unbonding_total == old(self).unbonding_total,
            final(self).same_vesting(old(self)),
            final(self).same_unbonds(old(self)),
            final(self).same_sessions(old(self)),
    {
        if self.total_shares.is_zero() {
            let orphaned = self.distributable(now_ms);
            self.fees_accrued = self.fees_accrued.saturating_add(orphaned);
        }
    }

    /// `r` is a refusal for a deposit below the minimum.
    pub open spec fn below_minimum<T>(r: Result<T, VaultError>) -> bool {
        r matches Err(VaultError::BelowMinimum { min }) && min@ == MIN_DEPOSIT as nat
    }

    /// `r` is what `check_deposit(assets, now)` answers.
    pub open spec fn deposit_check(&self, assets: nat, now: u64, r: Result<U256, VaultError>) -> bool {
        if self.paused {
            r == Err::<U256, VaultError>(VaultError::Paused)
        } else if assets == 0 {
            r == Err::<U256, VaultError>(VaultError::ZeroAmount)
        } else if assets < MIN_DEPOSIT {
            Self::below_minimum(r)
        } else {
            match self.shares_quote(assets, now) {
                None => r == Err::<U256, VaultError>(VaultError::Overflow),
                Some(q) => if q == 0 {
                    Self::below_minimum(r)
                } else {
                    r matches Ok(v) && v@ == q
                },
            }
        }
    }

    /// Checks before a deposit's token call. Returns the shares the deposit would mint now.
    pub fn check_deposit(&self, assets: U256, now_ms: u64) -> (r: Result<U256, VaultError>)
        requires
            self.can_price(assets@, now_ms),
        ensures
            self.deposit_check(assets@, now_ms, r),
    {
        if self.paused {
            return Err(VaultError::Paused);
        }
        if assets.is_zero() {
            return Err(VaultError::ZeroAmount);
        }
        let min = U256::from_u64(MIN_DEPOSIT);
        if assets.lt(&min) {
            return Err(VaultError::BelowMinimum { min });
        }
        let shares = match self.shares_for(assets, now_ms) {
            Ok(v) => v,
            Err(e) => return Err(e),
        };
        if shares.is_zero() {
            return Err(VaultError::BelowMinimum { min });
        }
        Ok(shares)
    }

    /// What `settle_deposit(owner, assets, now)` does: `new` is the state after it and `r` its
    /// result.
    pub open spec fn settle_post(&self, new: &VaultState, owner: ActorId, assets: nat, now: u64, r: Result<U256, VaultError>) -> bool {
        &&& new.same_config(self)
        &&& new.same_vesting(self)
        &&& new.same_unbonds(self)
        &&& new.same_sessions(self)
        &&& new.unbonding_total == self.unbonding_total
        &&& amounts(new.allowances@) == amounts(self.allowances@)
        &&& new.base_rate == self.base_rate
        &&& new.fees_accrued@ == self.swept_fees(now)
        &&& match self.shares_quote(assets, now) {
            None => {
                &&& r == Err::<U256, VaultError>(VaultError::Overflow)
                &&& new.same_shares(self)
                &&& new.holdings == self.holdings
            },
            Some(q0) => {
                let q = max_nat(q0, 1);
                if self.can_mint(owner, q) {
                    &&& self.minted(new, owner, q)
                    &&& if self.holdings@ + assets <= u256_max() {
                        r matches Ok(v) && v@ == q && new.holdings@ == self.holdings@ + assets
                    } else {
                        r == Err::<U256, VaultError>(VaultError::Overflow) && new.holdings
                            == self.holdings
                    }
                } else {
                    &&& r == Err::<U256, VaultError>(VaultError::Overflow)
                    &&& new.same_shares(self)
                    &&& new.holdings == self.holdings
                }
            },
        }
    }

    /// Settle a deposit whose tokens have arrived: sweep what belongs to nobody, then mint at
    /// least one share at the current price.
    pub fn settle_deposit(&mut self, owner: ActorId, assets: U256, now_ms: u64) -> (r: Result<
        U256,
        VaultError,
    >)
        requires
            old(self).can_price(assets@, now_ms),
        ensures
            old(self).settle_post(&*final(self), owner, assets@, now_ms, r),
    {
        self.sweep_orphans(now_ms);
        assert(self.shares_quote(assets@, now_ms) == old(self).shares_quote(assets@, now_ms));
        let shares = match self.shares_for(assets, now_ms) {
            Ok(v) => v.max(U256::one()),
            Err(e) => return Err(e),
        };
        match self.mint_shares(owner, shares) {
            Ok(()) => {},
            Err(e) => return Err(e),
        }
        self.holdings = match self.holdings.checked_add(assets) {
            Some(v) => v,
            None => return Err(VaultError::Overflow),
        };
        Ok(shares)
    }

    /// What `begin_redeem(owner, shares, now)` does: `new` is the state after it and `r` its result.
    pub open spec fn redeem_post(&self, new: &VaultState, owner: ActorId, shares: U256, now: u64, r: Result<RedeemPreview, VaultError>) -> bool {
        &&& (new.same_config(self))
        &&& (new.same_vesting(self))
        &&& (new.same_unbonds(self))
        &&& (new.same_sessions(self))
        &&& (new.unbonding_total == self.unbonding_total)
        &&& (amounts(new.allowances@) == amounts(self.allowances@))
        &&& (self.paused ==> r == Err::<RedeemPreview, VaultError>(VaultError::Paused)
            && new.same_state(self))
        &&& (!self.paused && shares@ == 0 ==> r == Err::<RedeemPreview, VaultError>(
                VaultError::ZeroAmount) && new.same_state(self))
        &&& (!self.paused && shares@ > 0 && self.balance(owner) < shares@ ==> r == Err::<
                RedeemPreview,
                VaultError>(VaultError::InsufficientShares) && new.same_state(self))
        &&& (!self.paused && shares@ > 0 && self.balance(owner) >= shares@
            && self.assets_quote(shares@, now) is None ==> r == Err::<RedeemPreview, VaultError>(
                VaultError::Overflow) && new.same_state(self))
        &&& (!self.paused && shares@ > 0 && self.balance(owner) >= shares@
            && self.assets_quote(shares@, now) is Some ==> ({
                let a = self.assets_quote(shares@, now)->0;
                let fee = self.fee_on(a);
                let d = self.distributable_at(now);
                if a - fee == 0 {
                    r == Err::<RedeemPreview, VaultError>(VaultError::ZeroAmount) && new.same_state(self)
                } else if a > d {
                    r matches Err(VaultError::InsufficientReserve { available }) && available@ == d
                        && new.same_state(self)
                } else if self.total_shares@ < shares@ {
                    &&& r == Err::<RedeemPreview, VaultError>(VaultError::Overflow)
                    &&& amounts(new.balances@) == debited(
                        amounts(self.balances@),
                        owner.key(),
                        shares@,
                    )
                    &&& new.total_shares == self.total_shares
                    &&& new.base_rate == self.base_rate
                    &&& new.same_funds(self)
                } else {
                    &&& r matches Ok(p) && p.assets@ == a && p.fee@ == fee && p.net@ == a - fee
                    &&& self.burned(new, owner, shares@, now)
                    &&& new.fees_accrued@ == sat_add(self.fees_accrued@, fee)
                    &&& new.holdings@ == self.holdings@ - (a - fee)
                }
            }))
    }

    /// Burn shares for an instant exit and take the payout out of holdings before the token
    /// call, so nothing between here and the transfer prices off assets already promised.
    /// Refuses, without changes, when the distributable assets cannot cover it.
    pub fn begin_redeem(&mut self, owner: ActorId, shares: U256, now_ms: u64) -> (r: Result<
        RedeemPreview,
        VaultError,
    >)
        requires
            old(self).fee_fits(shares@, now_ms),
        ensures
            old(self).redeem_post(&*final(self), owner, shares, now_ms, r),

    {
        if self.paused {
            return Err(VaultError::Paused);
        }
        if shares.is_zero() {
            return Err(VaultError::ZeroAmount);
        }
        if self.balance_of(&owner).lt(&shares) {
            return Err(VaultError::InsufficientShares);
        }
        let p = match self.preview_redeem(shares, now_ms) {
            Ok(p) => p,
            Err(e) => return Err(e),
        };
        if p.net.is_zero() {
            return Err(VaultError::ZeroAmount);
        }
        let available = self.distributable(now_ms);
        if p.assets.gt(&available) {
            return Err(VaultError::InsufficientReserve { available });
        }
        match self.burn_shares(owner, shares, now_ms) {
            Ok(()) => {},
            Err(e) => return Err(e),
        }
        self.fees_accrued = self.fees_accrued.saturating_add(p.fee);
        self.holdings = self.holdings.sub(p.net);
        Ok(p)
    }

    /// Undo `begin_redeem` after a failed payout: the shares come back, the fee leaves the bucket
    /// and the net returns to the holdings.
    pub fn revert_redeem(&mut self, owner: ActorId, shares: U256, p: &RedeemPreview)
        ensures
            old(self).revert_post(&*final(self), owner, shares@, p.fee@, p.net@),
    {
        let _ = self.mint_shares(owner, shares);
        self.fees_accrued = self.fees_accrued.saturating_sub(p.fee);
        self.holdings = self.holdings.saturating_add(p.net);
    }

    /// What `fund(assets, now)` does: `new` is the state after it and `r` its result.
    pub open spec fn fund_post(&self, new: &VaultState, assets: nat, now: u64, r: Result<(), VaultError>) -> bool {
        &&& (new.same_config(self))
        &&& (new.same_shares(self))
        &&& (new.same_unbonds(self))
        &&& (new.same_sessions(self))
        &&& (new.fees_accrued == self.fees_accrued)
        &&& (new.unbonding_total == self.unbonding_total)
        &&& (assets == 0 ==> r == Err::<(), VaultError>(VaultError::ZeroAmount)
                && new.same_state(self))
        &&& (assets > 0 && self.locked(now) + assets > u256_max() ==> r
                == Err::<(), VaultError>(VaultError::Overflow) && new.same_state(self))
        &&& (assets > 0 && self.locked(now) + assets <= u256_max()
                ==> ({
                let rem = self.locked(now);
                if self.holdings@ + assets <= u256_max() {
                    &&& r is Ok
                    &&& new.holdings@ == self.holdings@ + assets
                    &&& new.vest_amount@ == rem + assets
                    &&& new.vest_start_ms == now
                    &&& new.vest_end_ms == sat_add_u64(
                        now,
                        funded_length(
                            rem,
                            assets,
                            self.vesting_period_ms,
                            self.vest_end_ms,
                            now,
                        ) as u64,
                    )
                } else {
                    r == Err::<(), VaultError>(VaultError::Overflow) && new.same_state(self)
                }
            }))
    }

    /// Count rewards whose tokens have arrived: they join the vesting tranche. What is still
    /// locked is folded in, and the new tranche's length is the amount-weighted average of the time left and a full
    /// vesting period.
    pub fn fund(&mut self, assets: U256, now_ms: u64) -> (r: Result<(), VaultError>)
        ensures
            old(self).fund_post(&*final(self), assets@, now_ms, r),

    {
        if assets.is_zero() {
            return Err(VaultError::ZeroAmount);
        }
        let remaining = self.locked_rewards(now_ms);
        let total = match remaining.checked_add(assets) {
            Some(v) => v,
            None => return Err(VaultError::Overflow),
        };
        let time_left = funded_tranche_length(
            remaining,
            assets,
            total,
            self.vesting_period_ms,
            self.vest_end_ms,
            now_ms,
        );
        let holdings = match self.holdings.checked_add(assets) {
            Some(v) => v,
            None => return Err(VaultError::Overflow),
        };
        self.vest_amount = total;
        self.vest_start_ms = now_ms;
        self.vest_end_ms = now_ms.saturating_add(time_left);
        self.holdings = holdings;
        Ok(())
    }

    /// What `request_unbond(owner, shares, now)` does: `new` is the state after it and `r` its
    /// result.
    pub open spec fn unbond_post(&self, new: &VaultState, owner: ActorId, shares: U256, now: u64, r: Result<Unbond, VaultError>) -> bool {
        &&& (new.same_config(self))
        &&& (new.same_vesting(self))
        &&& (new.same_sessions(self))
        &&& (new.holdings == self.holdings)
        &&& (new.fees_accrued == self.fees_accrued)
        &&& (amounts(new.allowances@) == amounts(self.allowances@))
        &&& (self.paused ==> r == Err::<Unbond, VaultError>(VaultError::Paused)
            && new.same_state(self))
        &&& (!self.paused && shares@ == 0 ==> r == Err::<Unbond, VaultError>(
                VaultError::ZeroAmount) && new.same_state(self))
        &&& (!self.paused && shares@ > 0 && self.balance(owner) < shares@ ==> r == Err::<
                Unbond,
                VaultError>(VaultError::InsufficientShares) && new.same_state(self))
        &&& (!self.paused && shares@ > 0 && self.balance(owner) >= shares@
            && self.assets_quote(shares@, now) is None ==> r == Err::<Unbond, VaultError>(
                VaultError::Overflow) && new.same_state(self))
        &&& (!self.paused && shares@ > 0 && self.balance(owner) >= shares@
            && self.assets_quote(shares@, now) is Some ==> ({
                let a = self.assets_quote(shares@, now)->0;
                let d = self.distributable_at(now);
                if a == 0 {
                    r == Err::<Unbond, VaultError>(VaultError::ZeroAmount) && new.same_state(self)
                } else if a > d {
                    r matches Err(VaultError::InsufficientReserve { available }) && available@ == d
                        && new.same_state(self)
                } else if self.total_shares@ < shares@ {
                    &&& r == Err::<Unbond, VaultError>(VaultError::Overflow)
                    &&& amounts(new.balances@) == debited(
                        amounts(self.balances@),
                        owner.key(),
                        shares@,
                    )
                    &&& new.total_shares == self.total_shares
                    &&& new.base_rate == self.base_rate
                    &&& new.same_unbonds(self)
                    &&& new.unbonding_total == self.unbonding_total
                } else if self.unbonding_total@ + a > u256_max() {
                    &&& r == Err::<Unbond, VaultError>(VaultError::Overflow)
                    &&& self.burned(new, owner, shares@, now)
                    &&& new.same_unbonds(self)
                    &&& new.unbonding_total == self.unbonding_total
                } else {
                    let e = Unbond {
                        id: self.next_unbond_id,
                        shares: shares,
                        assets: r->Ok_0.assets,
                        requested_at: now,
                        claimable_at: sat_add_u64(now, self.unbond_period_ms),
                    };
                    &&& r is Ok
                    &&& r->Ok_0 == e
                    &&& e.assets@ == a
                    &&& self.burned(new, owner, shares@, now)
                    &&& new.unbonding_total@ == self.unbonding_total@ + a
                    &&& new.next_unbond_id == self.next_unbond_id + 1
                    &&& lists(new.unbonds@) == lists(self.unbonds@).insert(
                        owner.key(),
                        list_of(lists(self.unbonds@), owner.key()).push(e),
                    )
                }
            }))
    }

    /// Timed exit: burn `shares` now and lock their assets at the current rate, claimable after
    /// the unbond period.
    pub fn request_unbond(&mut self, owner: ActorId, shares: U256, now_ms: u64) -> (r: Result<
        Unbond,
        VaultError,
    >)
        requires
            old(self).next_unbond_id < u64::MAX,
        ensures
            old(self).unbond_post(&*final(self), owner, shares, now_ms, r),

    {
        if self.paused {
            return Err(VaultError::Paused);
        }
        if shares.is_zero() {
            return Err(VaultError::ZeroAmount);
        }
        if self.balance_of(&owner).lt(&shares) {
            return Err(VaultError::InsufficientShares);
        }
        let assets = match self.assets_for(shares, now_ms) {
            Ok(v) => v,
            Err(e) => return Err(e),
        };
        if assets.is_zero() {
            return Err(VaultError::ZeroAmount);
        }
        let available = self.distributable(now_ms);
        if assets.gt(&available) {
            return Err(VaultError::InsufficientReserve { available });
        }
        match self.burn_shares(owner, shares, now_ms) {
            Ok(()) => {},
            Err(e) => return Err(e),
        }
        self.unbonding_total = match self.unbonding_total.checked_add(assets) {
            Some(v) => v,
            None => return Err(VaultError::Overflow),
        };
        let entry = Unbond {
            id: self.next_unbond_id,
            shares,
            assets,
            requested_at: now_ms,
            claimable_at: now_ms.saturating_add(self.unbond_period_ms),
        };
        self.next_unbond_id = self.next_unbond_id + 1;
        push_entry(&mut self.unbonds, owner.key(), entry);
        Ok(entry)
    }

    /// What `take_unbond(owner, id, now)` does: `new` is the state after it and `r` its result.
    pub open spec fn take_post(&self, new: &VaultState, owner: ActorId, id: u64, now: u64, r: Result<Unbond, VaultError>) -> bool {
        &&& (new.same_config(self))
        &&& (new.same_shares(self))
        &&& (new.same_vesting(self))
        &&& (new.same_sessions(self))
        &&& (new.fees_accrued == self.fees_accrued)
        &&& (new.next_unbond_id == self.next_unbond_id)
        &&& (self.paused ==> r == Err::<Unbond, VaultError>(VaultError::Paused)
            && new.same_state(self))
        &&& (!self.paused && !has_id(list_of(lists(self.unbonds@), owner.key()), id) ==> r
                == Err::<Unbond, VaultError>(VaultError::UnbondNotFound) && new.same_state(self))
        &&& (forall|i: int|
                !self.paused && #[trigger] first_with(
                    list_of(lists(self.unbonds@), owner.key()),
                    id,
                    i,
                ) ==> ({
                    let list = list_of(lists(self.unbonds@), owner.key());
                    let e = list[i];
                    if now < e.claimable_at {
                        r == Err::<Unbond, VaultError>(
                            VaultError::UnbondNotReady { claimable_at: e.claimable_at },
                        ) && new.same_state(self)
                    } else if e.assets@ > self.holdings@ {
                        r == Err::<Unbond, VaultError>(
                            VaultError::InsufficientReserve { available: self.holdings },
                        ) && new.same_state(self)
                    } else {
                        &&& r == Ok::<Unbond, VaultError>(e)
                        &&& lists(new.unbonds@) == (if list.len() == 1 {
                            lists(self.unbonds@).remove(owner.key())
                        } else {
                            lists(self.unbonds@).insert(owner.key(), list.remove(i))
                        })
                        &&& new.unbonding_total@ == sat_sub(
                            self.unbonding_total@,
                            e.assets@,
                        )
                        &&& new.holdings@ == self.holdings@ - e.assets@
                    }
                }))
    }

    /// Remove a claimable unbond entry and take its assets out of holdings before the token call.
    pub fn take_unbond(&mut self, owner: ActorId, id: u64, now_ms: u64) -> (r: Result<
        Unbond,
        VaultError,
    >)
        ensures
            old(self).take_post(&*final(self), owner, id, now_ms, r),

    {
        if self.paused {
            return Err(VaultError::Paused);
        }
        let k = owner.key();
        let list = entries_of(&self.unbonds, &k);
        let idx = match position_of(&list, id) {
            Some(i) => i,
            None => {
                proof {
                    assert(!has_id(list@, id));
                }
                return Err(VaultError::UnbondNotFound);
            },
        };
        proof {
            assert(first_with(list@, id, idx as int));
            assert forall|i: int| #[trigger] first_with(list@, id, i) implies i == idx by {
                if i < idx {
                    assert(list@[i].id != id);
                } else if i > idx {
                    assert(list@[idx as int].id != id);
                }
            }
        }
        let claimable_at = list[idx].claimable_at;
        if now_ms < claimable_at {
            return Err(VaultError::UnbondNotReady { claimable_at });
        }
        if list[idx].assets.gt(&self.holdings) {
            return Err(VaultError::InsufficientReserve { available: self.holdings });
        }
        let entry = take_at(&mut self.unbonds, k, idx);
        self.unbonding_total = self.unbonding_total.saturating_sub(entry.assets);
        self.holdings = self.holdings.sub(entry.assets);
        Ok(entry)
    }

    /// Put an unbond entry back after a failed payout.
    pub fn restore_unbond(&mut self, owner: ActorId, entry: Unbond)
        ensures
            old(self).restore_post(&*final(self), owner, entry),
    {
        self.unbonding_total = self.unbonding_total.saturating_add(entry.assets);
        self.holdings = self.holdings.saturating_add(entry.assets);
        restore_entry(&mut self.unbonds, owner.key(), entry);
    }

    /// The unbond entries of `owner`.
    pub fn unbonds_of(&self, owner: &ActorId) -> (r: Vec<Unbond>)
        ensures
            r@ == list_of(lists(self.unbonds@), owner.key()),
    {
        entries_of(&self.unbonds, &owner.key())
    }

    /// What `take_fees()` does: `new` is the state after it and `r` its result.
    pub open spec fn take_fees_post(&self, new: &VaultState, r: Result<U256, VaultError>) -> bool {
        &&& (new.same_config(self))
        &&& (new.same_shares(self))
        &&& (new.same_vesting(self))
        &&& (new.same_unbonds(self))
        &&& (new.same_sessions(self))
        &&& (new.unbonding_total == self.unbonding_total)
        &&& (self.fees_accrued@ == 0 ==> r == Err::<U256, VaultError>(VaultError::ZeroAmount)
            && new.same_state(self))
        &&& (self.fees_accrued@ > 0 && self.fees_accrued@ > self.holdings@
            ==> r == Err::<U256, VaultError>(VaultError::InsufficientReserve { available: self.holdings })
            && new.same_state(self))
        &&& (self.fees_accrued@ > 0 && self.fees_accrued@ <= self.holdings@
            ==> r == Ok::<U256, VaultError>(self.fees_accrued)
            && new.fees_accrued@ == 0 && new.holdings@ == self.holdings@ - self.fees_accrued@)
    }

    /// Take the accrued fees out of holdings before the token call. Returns the amount to pay.
    pub fn take_fees(&mut self) -> (r: Result<U256, VaultError>)
        ensures
            old(self).take_fees_post(&*final(self), r),
    {
        let amount = self.fees_accrued;
        if amount.is_zero() {
            return Err(VaultError::ZeroAmount);
        }
        if amount.gt(&self.holdings) {
            return Err(VaultError::InsufficientReserve { available: self.holdings });
        }
        self.fees_accrued = U256::zero();
        self.holdings = self.holdings.sub(amount);
        Ok(amount)
    }

    /// What `restore_fees(amount)` does: `new` is the state after it.
    pub open spec fn restore_fees_post(&self, new: &VaultState, amount: U256) -> bool {
        &&& (new.same_config(self))
        &&& (new.same_shares(self))
        &&& (new.same_vesting(self))
        &&& (new.same_unbonds(self))
        &&& (new.same_sessions(self))
        &&& (new.unbonding_total == self.unbonding_total)
        &&& (new.fees_accrued@ == sat_add(self.fees_accrued@, amount@))
        &&& (new.holdings@ == sat_add(self.holdings@, amount@))
    }

    /// Put fees back after a failed payout.
    pub fn restore_fees(&mut self, amount: U256)
        ensures
            old(self).restore_fees_post(&*final(self), amount),
    {
        self.fees_accrued = self.fees_accrued.saturating_add(amount);
        self.holdings = self.holdings.saturating_add(amount);
    }

    fn ensure_admin(&self, who: ActorId) -> (r: Result<(), VaultError>)
        ensures
            self.admin == who ==> r is Ok,
            self.admin != who ==> r == Err::<(), VaultError>(VaultError::Unauthorized),
    {
        if self.admin.same(&who) {
            Ok(())
        } else {
            Err(VaultError::Unauthorized)
        }
    }

    /// The configuration is in bounds.
    pub open spec fn config_ok(fee: u32, unbond_secs: u64, vesting_secs: u64) -> bool {
        fee <= MAX_FEE_BPS && unbond_secs <= MAX_UNBOND_SECS && MIN_VESTING_SECS <= vesting_secs
            <= MAX_VESTING_SECS
    }

    /// Change the fee and periods; out-of-range values are refused.
    pub fn set_config(&mut self, instant_fee_bps: u32, unbond_period_secs: u64, vesting_period_secs: u64) -> (r: Result<
        (),
        VaultError,
    >)
        ensures
            final(self).same_shares(old(self)),
            final(self).same_funds(old(self)),
            final(self).same_vesting(old(self)),
            final(self).same_unbonds(old(self)),
            final(self).same_sessions(old(self)),
            final(self).admin == old(self).admin,
            final(self).name == old(self).name,
            final(self).symbol == old(self).symbol,
            final(self).decimals == old(self).decimals,
            final(self).paused == old(self).paused,
            !Self::config_ok(instant_fee_bps, unbond_period_secs, vesting_period_secs) ==> r
                == Err::<(), VaultError>(VaultError::BadConfig) && final(self).same_config(old(self)),
            Self::config_ok(instant_fee_bps, unbond_period_secs, vesting_period_secs) ==> r is Ok
                && final(self).instant_fee_bps == instant_fee_bps && final(self).unbond_period_ms
                == ms_of(unbond_period_secs) && final(self).vesting_period_ms == ms_of(
                vesting_period_secs,
            ),
    {
        if instant_fee_bps > MAX_FEE_BPS || unbond_period_secs > MAX_UNBOND_SECS
            || vesting_period_secs < MIN_VESTING_SECS || vesting_period_secs > MAX_VESTING_SECS {
            return Err(VaultError::BadConfig);
        }
        self.instant_fee_bps = instant_fee_bps;
        self.unbond_period_ms = secs_to_ms(unbond_period_secs);
        self.vesting_period_ms = secs_to_ms(vesting_period_secs);
        Ok(())
    }
}

// --- sessions ------------------------------------------------------------------------------

impl VaultState {
    /// Who a message from `sender` acts for when it performs `action` at `now`.
    pub open spec fn route(&self, sender: ActorId, action: SessionAction, now: u64) -> Result<
        ActorId,
        VaultError,
    > {
        if !self.session_keys@.contains_key(sender.key()) {
            Ok(sender)
        } else {
            let owner = self.session_keys@[sender.key()];
            if !self.sessions@.contains_key(owner.key()) {
                Err(VaultError::SessionExpired)
            } else {
                let s = self.sessions@[owner.key()];
                if now >= s.expires_at {
                    Err(VaultError::SessionExpired)
                } else if !s.actions@.contains(action) {
                    Err(VaultError::SessionNotAllowed)
                } else {
                    Ok(owner)
                }
            }
        }
    }

    /// `key` is bound to an owner other than `owner`.
    pub open spec fn bound_elsewhere(&self, key: ActorId, owner: ActorId) -> bool {
        self.session_keys@.contains_key(key.key()) && self.session_keys@[key.key()] != owner
    }

    /// The session books after `key` accepted the session `owner` proposed (`p`).
    pub open spec fn accepted_sessions(&self, owner: ActorId, p: (
        ActorId,
        u64,
        Seq<SessionAction>,
    )) -> Map<Key, (ActorId, u64, Seq<SessionAction>)> {
        session_views(self.sessions@).insert(owner.key(), p)
    }

    /// The key book once the owner's previous session is dropped.
    pub open spec fn keys_after_drop(&self, owner: ActorId) -> Map<Key, ActorId> {
        if self.sessions@.contains_key(owner.key()) {
            self.session_keys@.remove(self.sessions@[owner.key()].key.key())
        } else {
            self.session_keys@
        }
    }

    /// The key book after `key` accepted the session `owner` proposed.
    pub open spec fn accepted_keys(&self, key: ActorId, owner: ActorId) -> Map<Key, ActorId> {
        self.keys_after_drop(owner).insert(key.key(), owner)
    }

    /// Who a message acts for: the sender itself, or the owner of the accepted session key it
    /// holds.
    pub fn actor_for(&self, sender: ActorId, action: SessionAction, now_ms: u64) -> (r: Result<
        ActorId,
        VaultError,
    >)
        ensures
            r == self.route(sender, action, now_ms),
    {
        let owner = match self.session_keys.get(&sender.key()) {
            Some(o) => *o,
            None => return Ok(sender),
        };
        let session = match self.sessions.get(&owner.key()) {
            Some(s) => s,
            None => return Err(VaultError::SessionExpired),
        };
        if now_ms >= session.expires_at {
            return Err(VaultError::SessionExpired);
        }
        if !session.allows(action) {
            return Err(VaultError::SessionNotAllowed);
        }
        Ok(owner)
    }

    /// True when `key` is bound to another owner: a key serves one owner.
    fn key_bound_elsewhere(&self, key: ActorId, owner: ActorId) -> (r: bool)
        ensures
            r == self.bound_elsewhere(key, owner),
    {
        match self.session_keys.get(&key.key()) {
            Some(other) => !other.same(&owner),
            None => false,
        }
    }

    /// The proposal is well formed.
    pub open spec fn proposal_ok(owner: ActorId, key: ActorId, duration_secs: u64, actions: Seq<
        SessionAction,
    >) -> bool {
        !key.is_zero_spec() && key != owner && duration_secs != 0 && duration_secs
            <= MAX_SESSION_SECS && actions.len() > 0
    }

    /// Propose a session. Nothing changes for `key` until it accepts.
    pub fn propose_session(
        &mut self,
        owner: ActorId,
        key: ActorId,
        duration_secs: u64,
        actions: Vec<SessionAction>,
        now_ms: u64,
    ) -> (r: Result<Session, VaultError>)
        ensures
            final(self).same_config(old(self)),
            final(self).same_shares(old(self)),
            final(self).same_funds(old(self)),
            final(self).same_vesting(old(self)),
            final(self).same_unbonds(old(self)),
            session_views(final(self).sessions@) == session_views(old(self).sessions@),
            final(self).session_keys@ == old(self).session_keys@,
            !Self::proposal_ok(owner, key, duration_secs, actions@) || old(self).bound_elsewhere(key, owner) ==> r == Err::<Session, VaultError>(VaultError::BadSession) && session_views(
                final(self).pending_sessions@,
            ) == session_views(old(self).pending_sessions@),
            Self::proposal_ok(owner, key, duration_secs, actions@) && !old(self).bound_elsewhere(key, owner) ==> r is Ok && r->Ok_0@ == (key, sat_add_u64(now_ms, ms_of(duration_secs)), actions@)
                && session_views(final(self).pending_sessions@) == session_views(
                old(self).pending_sessions@,
            ).insert(owner.key(), r->Ok_0@),
    {
        if key.is_zero() || key.same(&owner) || duration_secs == 0 || duration_secs > MAX_SESSION_SECS
            || actions.len() == 0 {
            return Err(VaultError::BadSession);
        }
        if self.key_bound_elsewhere(key, owner) {
            return Err(VaultError::BadSession);
        }
        let session = Session {
            key,
            expires_at: now_ms.saturating_add(secs_to_ms(duration_secs)),
            actions,
        };
        self.pending_sessions.insert(owner.key(), session.duplicate());
        assert(session_views(self.pending_sessions@) =~= session_views(
            old(self).pending_sessions@,
        ).insert(owner.key(), session@));
        Ok(session)
    }

    /// What `accept_session(key, owner, now)` does: `new` is the state after it and `r` its result.
    pub open spec fn accept_post(&self, new: &VaultState, key: ActorId, owner: ActorId, now_ms: u64, r: Result<Session, VaultError>) -> bool {
        &&& new.same_config(self)
        &&& new.same_shares(self)
        &&& new.same_funds(self)
        &&& new.same_vesting(self)
        &&& new.same_unbonds(self)
        &&& if !(self.pending_sessions@.contains_key(owner.key())
            && self.pending_sessions@[owner.key()].key == key) {
            r == Err::<Session, VaultError>(VaultError::BadSession) && new.same_sessions(self)
        } else {
            let p = self.pending_sessions@[owner.key()];
            if now_ms >= p.expires_at {
                r == Err::<Session, VaultError>(VaultError::SessionExpired) && new.same_sessions(self)
            } else if self.bound_elsewhere(key, owner) {
                r == Err::<Session, VaultError>(VaultError::BadSession) && new.same_sessions(self)
            } else {
                &&& r is Ok
                &&& r->Ok_0@ == p@
                &&& session_views(new.pending_sessions@) == session_views(
                    self.pending_sessions@,
                ).remove(owner.key())
                &&& session_views(new.sessions@) == self.accepted_sessions(owner, p@)
                &&& new.session_keys@ == self.accepted_keys(key, owner)
            }
        }
    }

    /// The key accepts the session `owner` proposed for it; from now on it acts for `owner`.
    /// Replaces any session the owner had before.
    pub fn accept_session(&mut self, key: ActorId, owner: ActorId, now_ms: u64) -> (r: Result<
        Session,
        VaultError,
    >)
        ensures
            old(self).accept_post(&*final(self), key, owner, now_ms, r),
    {
        let ok = match self.pending_sessions.get(&owner.key()) {
            Some(p) => p.key.same(&key),
            None => false,
        };
        if !ok {
            return Err(VaultError::BadSession);
        }
        let expires_at = match self.pending_sessions.get(&owner.key()) {
            Some(p) => p.expires_at,
            None => return Err(VaultError::BadSession),
        };
        if now_ms >= expires_at {
            return Err(VaultError::SessionExpired);
        }
        if self.key_bound_elsewhere(key, owner) {
            return Err(VaultError::BadSession);
        }
        let session = match self.pending_sessions.remove(&owner.key()) {
            Some(s) => s,
            None => return Err(VaultError::BadSession),
        };
        assert(session_views(self.pending_sessions@) =~= session_views(
            old(self).pending_sessions@,
        ).remove(owner.key()));
        match self.sessions.remove(&owner.key()) {
            Some(old_session) => {
                self.session_keys.remove(&old_session.key.key());
            },
            None => {},
        }
        assert(self.session_keys@ =~= old(self).keys_after_drop(owner));
        self.sessions.insert(owner.key(), session.duplicate());
        self.session_keys.insert(key.key(), owner);
        assert(session_views(self.sessions@) =~= old(self).accepted_sessions(owner, session@));
        assert(self.session_keys@ =~= old(self).accepted_keys(key, owner));
        Ok(session)
    }

    /// What `revoke_session(owner)` does: `new` is the state after it and `r` its result.
    pub open spec fn revoke_post(&self, new: &VaultState, owner: ActorId, r: bool) -> bool {
        &&& new.same_config(self)
        &&& new.same_shares(self)
        &&& new.same_funds(self)
        &&& new.same_vesting(self)
        &&& new.same_unbonds(self)
        &&& r == (self.pending_sessions@.contains_key(owner.key()) || self.sessions@.contains_key(
            owner.key(),
        ))
        &&& session_views(new.pending_sessions@) == session_views(self.pending_sessions@).remove(
            owner.key(),
        )
        &&& session_views(new.sessions@) == session_views(self.sessions@).remove(owner.key())
        &&& new.session_keys@ == self.keys_after_drop(owner)
    }

    /// Drop the owner's session, active or proposed. Returns whether one existed.
    pub fn revoke_session(&mut self, owner: ActorId) -> (r: bool)
        ensures
            old(self).revoke_post(&*final(self), owner, r),
    {
        let pending = match self.pending_sessions.remove(&owner.key()) {
            Some(_) => true,
            None => false,
        };
        assert(session_views(self.pending_sessions@) =~= session_views(
            old(self).pending_sessions@,
        ).remove(owner.key()));
        let ghost s0 = session_views(self.sessions@);
        match self.sessions.remove(&owner.key()) {
            Some(old_session) => {
                self.session_keys.remove(&old_session.key.key());
                assert(session_views(self.sessions@) =~= s0.remove(owner.key()));
                assert(self.session_keys@ =~= old(self).keys_after_drop(owner));
                true
            },
            None => {
                assert(session_views(self.sessions@) =~= s0.remove(owner.key()));
                pending
            },
        }
    }

    /// A live session of `s`, copied; `None` once it expired.
    fn live_copy(s: Option<&Session>, now_ms: u64) -> (r: Option<Session>)
        ensures
            match s {
                Some(x) => if now_ms < x.expires_at {
                    r is Some && r->0@ == x@
                } else {
                    r is None
                },
                None => r is None,
            },
    {
        match s {
            Some(x) => if now_ms < x.expires_at {
                Some(x.duplicate())
            } else {
                None
            },
            None => None,
        }
    }

    /// The owner's active session, while it is live.
    pub fn session(&self, owner: ActorId, now_ms: u64) -> (r: Option<Session>)
        ensures
            self.sessions@.contains_key(owner.key()) && now_ms < self.sessions@[owner.key()].expires_at
                ==> r is Some && r->0@ == self.sessions@[owner.key()]@,
            !(self.sessions@.contains_key(owner.key()) && now_ms < self.sessions@[
                owner.key()
            ].expires_at) ==> r is None,
    {
        Self::live_copy(self.sessions.get(&owner.key()), now_ms)
    }

    /// The owner's proposed session, while it is live.
    pub fn pending_session(&self, owner: ActorId, now_ms: u64) -> (r: Option<Session>)
        ensures
            self.pending_sessions@.contains_key(owner.key()) && now_ms
                < self.pending_sessions@[owner.key()].expires_at ==> r is Some && r->0@
                == self.pending_sessions@[owner.key()]@,
            !(self.pending_sessions@.contains_key(owner.key()) && now_ms
                < self.pending_sessions@[owner.key()].expires_at) ==> r is None,
    {
        Self::live_copy(self.pending_sessions.get(&owner.key()), now_ms)
    }

    /// The owner a key acts for, while its session is live.
    pub fn session_owner(&self, key: ActorId, now_ms: u64) -> (r: Option<ActorId>)
        ensures
            r == (if self.session_keys@.contains_key(key.key()) && self.sessions@.contains_key(
                self.session_keys@[key.key()].key(),
            ) && now_ms < self.sessions@[self.session_keys@[key.key()].key()].expires_at {
                Some(self.session_keys@[key.key()])
            } else {
                None::<ActorId>
            }),
    {
        let owner = match self.session_keys.get(&key.key()) {
            Some(o) => *o,
            None => return None,
        };
        match self.sessions.get(&owner.key()) {
            Some(s) => if now_ms < s.expires_at {
                Some(owner)
            } else {
                None
            },
            None => None,
        }
    }
}

// --- queries -------------------------------------------------------------------------------

impl VaultState {
    /// A snapshot of the vault at `now_ms`.
    pub fn info(&self, now_ms: u64) -> (r: VaultInfo)
        requires
            self.apy_is_zero(now_ms) || self.vest_start_ms < self.vest_end_ms,
        ensures
            r.underlying == self.underlying,
            r.admin == self.admin,
            r.name == self.name,
            r.symbol == self.symbol,
            r.decimals == self.decimals,
            r.rate@ == self.rate(now_ms),
            r.apy_bps == self.apy(now_ms),
            r.instant_fee_bps == self.instant_fee_bps,
            r.unbond_period_secs == self.unbond_period_ms / 1000,
            r.vesting_period_secs == self.vesting_period_ms / 1000,
            r.total_shares == self.total_shares,
            r.total_assets@ == (if self.total_shares@ == 0 { 0 } else { self.distributable_at(now_ms) }),
            r.holdings == self.holdings,
            r.distributable@ == self.distributable_at(now_ms),
            r.locked_rewards@ == self.locked(now_ms),
            r.vesting_ends_at == (if self.locked(now_ms) == 0 { 0 } else { self.vest_end_ms }),
            r.fees_accrued == self.fees_accrued,
            r.unbonding_total == self.unbonding_total,
            r.min_deposit@ == MIN_DEPOSIT as nat,
            r.paused == self.paused,
    {
        let locked = self.locked_rewards(now_ms);
        VaultInfo {
            underlying: self.underlying,
            admin: self.admin,
            name: self.name.clone(),
            symbol: self.symbol.clone(),
            decimals: self.decimals,
            rate: self.rate_at(now_ms),
            apy_bps: self.apy_bps(now_ms),
            instant_fee_bps: self.instant_fee_bps,
            unbond_period_secs: self.unbond_period_ms / 1000,
            vesting_period_secs: self.vesting_period_ms / 1000,
            total_shares: self.total_shares,
            total_assets: self.total_assets(now_ms),
            holdings: self.holdings,
            distributable: self.distributable(now_ms),
            locked_rewards: locked,
            vesting_ends_at: if locked.is_zero() {
                0
            } else {
                self.vest_end_ms
            },
            fees_accrued: self.fees_accrued,
            unbonding_total: self.unbonding_total,
            min_deposit: U256::from_u64(MIN_DEPOSIT),
            paused: self.paused,
        }
    }

    /// Shares a deposit of `assets` would mint now; zero when the quote overflows.
    pub fn preview_deposit(&self, assets: U256, now_ms: u64) -> (r: U256)
        requires
            self.can_price(assets@, now_ms),
        ensures
            r@ == (match self.shares_quote(assets@, now_ms) {
                Some(q) => q,
                None => 0,
            }),
    {
        match self.shares_for(assets, now_ms) {
            Ok(v) => v,
            Err(_) => U256::zero(),
        }
    }

    /// What an instant exit of `shares` would pay now; all zero when the quote overflows.
    pub fn redeem_quote(&self, shares: U256, now_ms: u64) -> (r: RedeemPreview)
        requires
            self.fee_fits(shares@, now_ms),
        ensures
            match self.assets_quote(shares@, now_ms) {
                Some(a) => r.assets@ == a && r.fee@ == self.fee_on(a) && r.net@ == a - self.fee_on(
                    a,
                ),
                None => r.assets@ == 0 && r.fee@ == 0 && r.net@ == 0,
            },
    {
        match self.preview_redeem(shares, now_ms) {
            Ok(p) => p,
            Err(_) => RedeemPreview { assets: U256::zero(), fee: U256::zero(), net: U256::zero() },
        }
    }

    /// The shares of `account` and what they are worth now (zero when the quote overflows).
    pub fn position(&self, account: ActorId, now_ms: u64) -> (r: Position)
        ensures
            r.shares@ == self.balance(account),
            r.assets@ == (match self.assets_quote(self.balance(account), now_ms) {
                Some(a) => a,
                None => 0,
            }),
    {
        let shares = self.balance_of(&account);
        let assets = match self.assets_for(shares, now_ms) {
            Ok(v) => v,
            Err(_) => U256::zero(),
        };
        Position { shares, assets }
    }
}

// --- messages ------------------------------------------------------------------------------
//
// Each command of the program, as the decisions it makes: who it acts for, the transition, and
// what it answers. The program around these makes the token calls, hands their outcome back to
// the functions that finish a command, and emits the events.

/// Refuse to start a command that calls the token unless `available` gas covers `required`.
pub fn ensure_gas(available: u64, required: u64) -> (r: Result<(), VaultError>)
    ensures
        available < required ==> r == Err::<(), VaultError>(VaultError::NotEnoughGas { required }),
        available >= required ==> r is Ok,
{
    if available < required {
        Err(VaultError::NotEnoughGas { required })
    } else {
        Ok(())
    }
}

/// The outcome of a call into the underlying token, as the vault reads it: the token's own
/// answer (`Ok` with its reply, or `Err` with its error, printed) or the failure of the call
/// itself (printed).
pub fn transfer_outcome(reply: Result<Result<bool, String>, String>) -> (r: Result<(), VaultError>)
    ensures
        reply == Ok::<Result<bool, String>, String>(Ok(true)) ==> r is Ok,
        reply == Ok::<Result<bool, String>, String>(Ok(false)) ==> (r matches Err(
            VaultError::TokenRejected(m),
        ) && m@ == "transfer returned false"@),
        reply matches Ok(Err(m)) ==> r == Err::<(), VaultError>(VaultError::TokenRejected(m)),
        reply matches Err(m) ==> r == Err::<(), VaultError>(VaultError::TokenCall(m)),
{
    match reply {
        Ok(Ok(true)) => Ok(()),
        Ok(Ok(false)) => Err(VaultError::TokenRejected("transfer returned false".to_owned())),
        Ok(Err(m)) => Err(VaultError::TokenRejected(m)),
        Err(m) => Err(VaultError::TokenCall(m)),
    }
}

impl VaultState {
    /// `Vft::approve` sent by `owner`.
    pub fn vft_approve(&mut self, owner: ActorId, spender: ActorId, value: U256) -> (r: Result<bool, VaultError>)
        ensures
            final(self).same_config(old(self)),
            final(self).same_funds(old(self)),
            final(self).same_vesting(old(self)),
            final(self).same_unbonds(old(self)),
            final(self).same_sessions(old(self)),
            final(self).total_shares == old(self).total_shares,
            final(self).base_rate == old(self).base_rate,
            amounts(final(self).balances@) == amounts(old(self).balances@),
            old(self).paused ==> r == Err::<bool, VaultError>(VaultError::Paused) && amounts(
                final(self).allowances@,
            ) == amounts(old(self).allowances@),
            !old(self).paused && spender.is_zero_spec() ==> r == Err::<bool, VaultError>(
                VaultError::ZeroAddress,
            ) && amounts(final(self).allowances@) == amounts(old(self).allowances@),
            !old(self).paused && !spender.is_zero_spec() ==> r == Ok::<bool, VaultError>(true)
                && amounts(final(self).allowances@) == with_amount(
                amounts(old(self).allowances@),
                (owner.key(), spender.key()),
                value@,
            ),
    {
        match self.approve_shares(owner, spender, value) {
            Ok(()) => Ok(true),
            Err(e) => Err(e),
        }
    }
    /// `Vft::transfer` sent by `from`.
    pub fn vft_transfer(&mut self, from: ActorId, to: ActorId, value: U256) -> (r: Result<bool, VaultError>)
        ensures
            final(self).same_config(old(self)),
            final(self).same_funds(old(self)),
            final(self).same_vesting(old(self)),
            final(self).same_unbonds(old(self)),
            final(self).same_sessions(old(self)),
            final(self).total_shares == old(self).total_shares,
            final(self).base_rate == old(self).base_rate,
            amounts(final(self).allowances@) == amounts(old(self).allowances@),
            r is Ok ==> r == Ok::<bool, VaultError>(true),
            old(self).paused ==> r == Err::<bool, VaultError>(VaultError::Paused) && amounts(
                final(self).balances@,
            ) == amounts(old(self).balances@),
            !old(self).paused && to.is_zero_spec() ==> r == Err::<bool, VaultError>(
                VaultError::ZeroAddress,
            ) && amounts(final(self).balances@) == amounts(old(self).balances@),
            !old(self).paused && !to.is_zero_spec() && value@ == 0 ==> r == Err::<bool, VaultError>(
                VaultError::ZeroAmount,
            ) && amounts(final(self).balances@) == amounts(old(self).balances@),
            !old(self).paused && !to.is_zero_spec() && value@ > 0 && value@ > old(self).balance(from)
                ==> r == Err::<bool, VaultError>(VaultError::InsufficientBalance) && amounts(
                final(self).balances@,
            ) == amounts(old(self).balances@),
            !old(self).paused && !to.is_zero_spec() && value@ > 0 && value@ <= old(self).balance(
                from,
            ) ==> ({
                let mid = debited(amounts(old(self).balances@), from.key(), value@);
                if amount_of(mid, to.key()) + value@ <= u256_max() {
                    r is Ok && amounts(final(self).balances@) == credited(mid, to.key(), value@)
                } else {
                    r == Err::<bool, VaultError>(VaultError::Overflow) && amounts(final(self).balances@)
                        == mid
                }
            }),
    {
        match self.transfer_shares(from, to, value) {
            Ok(()) => Ok(true),
            Err(e) => Err(e),
        }
    }

    /// `Vft::transfer_from` sent by `spender`: the allowance is spent first unless the spender
    /// moves its own shares.
    pub fn vft_transfer_from(&mut self, spender: ActorId, from: ActorId, to: ActorId, value: U256) -> (r: Result<
        bool,
        VaultError,
    >)
        ensures
            final(self).same_config(old(self)),
            final(self).same_funds(old(self)),
            final(self).same_vesting(old(self)),
            final(self).same_unbonds(old(self)),
            final(self).same_sessions(old(self)),
            final(self).total_shares == old(self).total_shares,
            final(self).base_rate == old(self).base_rate,
            r is Ok ==> r == Ok::<bool, VaultError>(true),
            spender != from && old(self).allowance_of(from, spender) != u256_max() && value@ > old(self).allowance_of(from, spender) ==> r == Err::<bool, VaultError>(
                VaultError::InsufficientAllowance,
            ) && final(self).same_state(old(self)),
            spender == from || old(self).allowance_of(from, spender) == u256_max() ==> amounts(
                final(self).allowances@,
            ) == amounts(old(self).allowances@),
            spender != from && old(self).allowance_of(from, spender) != u256_max() && value@ <= old(self).allowance_of(from, spender) ==> amounts(final(self).allowances@) == debited(
                amounts(old(self).allowances@),
                (from.key(), spender.key()),
                value@,
            ),
            spender == from || old(self).allowance_of(from, spender) == u256_max() || value@ <= old(self).allowance_of(from, spender) ==> ({
                &&& old(self).paused ==> r == Err::<bool, VaultError>(VaultError::Paused) && amounts(
                    final(self).balances@,
                ) == amounts(old(self).balances@)
                &&& !old(self).paused && to.is_zero_spec() ==> r == Err::<bool, VaultError>(
                    VaultError::ZeroAddress,
                ) && amounts(final(self).balances@) == amounts(old(self).balances@)
                &&& !old(self).paused && !to.is_zero_spec() && value@ == 0 ==> r == Err::<
                    bool,
                    VaultError,
                >(VaultError::ZeroAmount) && amounts(final(self).balances@) == amounts(
                    old(self).balances@,
                )
                &&& !old(self).paused && !to.is_zero_spec() && value@ > 0 && value@ > old(self).balance(from) ==> r == Err::<bool, VaultError>(VaultError::InsufficientBalance)
                    && amounts(final(self).balances@) == amounts(old(self).balances@)
                &&& !old(self).paused && !to.is_zero_spec() && value@ > 0 && value@ <= old(self).balance(from) ==> ({
                    let mid = debited(amounts(old(self).balances@), from.key(), value@);
                    if amount_of(mid, to.key()) + value@ <= u256_max() {
                        r is Ok && amounts(final(self).balances@) == credited(mid, to.key(), value@)
                    } else {
                        r == Err::<bool, VaultError>(VaultError::Overflow) && amounts(
                            final(self).balances@,
                        ) == mid
                    }
                })
            }),
    {
        if !spender.same(&from) {
            match self.spend_allowance(from, spender, value) {
                Ok(()) => {},
                Err(e) => return Err(e),
            }
        }
        match self.transfer_shares(from, to, value) {
            Ok(()) => Ok(true),
            Err(e) => Err(e),
        }
    }

    /// `Vault::deposit` of `assets` sent by `sender` with `gas_available` left, up to the token
    /// call: the owner it acts for, the token to pull from, and the shares it would mint now.
    /// The program then pulls the assets from the owner and, once they arrived, calls
    /// `finish_deposit`.
    pub fn begin_deposit(&self, sender: ActorId, assets: U256, gas_available: u64, now_ms: u64) -> (r: Result<
        (ActorId, ActorId, U256),
        VaultError,
    >)
        requires
            self.can_price(assets@, now_ms),
        ensures
            gas_available < GAS_ONE_CALL ==> r == Err::<(ActorId, ActorId, U256), VaultError>(
                VaultError::NotEnoughGas { required: GAS_ONE_CALL },
            ),
            gas_available >= GAS_ONE_CALL ==> match self.route(sender, SessionAction::Deposit, now_ms) {
                Err(e) => r == Err::<(ActorId, ActorId, U256), VaultError>(e),
                Ok(owner) => {
                    let out = match r {
                        Ok(t) => Ok::<U256, VaultError>(t.2),
                        Err(e) => Err::<U256, VaultError>(e),
                    };
                    &&& self.deposit_check(assets@, now_ms, out)
                    &&& r matches Ok(t) ==> t.0 == owner && t.1 == self.underlying
                },
            },
    {
        match ensure_gas(gas_available, GAS_ONE_CALL) {
            Ok(()) => {},
            Err(e) => return Err(e),
        }
        let owner = match self.actor_for(sender, SessionAction::Deposit, now_ms) {
            Ok(o) => o,
            Err(e) => return Err(e),
        };
        match self.check_deposit(assets, now_ms) {
            Ok(shares) => Ok((owner, self.underlying, shares)),
            Err(e) => Err(e),
        }
    }

    /// The end of `Vault::deposit` once the owner's `assets` arrived: the shares minted and the
    /// rate after the deposit.
    pub fn finish_deposit(&mut self, owner: ActorId, assets: U256, now_ms: u64) -> (r: Result<
        (U256, U256),
        VaultError,
    >)
        requires
            old(self).can_price(assets@, now_ms),
        ensures
            ({
                let out = match r {
                    Ok(t) => Ok::<U256, VaultError>(t.0),
                    Err(e) => Err::<U256, VaultError>(e),
                };
                old(self).settle_post(&*final(self), owner, assets@, now_ms, out)
            }),
            r matches Ok(t) ==> t.1@ == final(self).rate(now_ms),
    {
        match self.settle_deposit(owner, assets, now_ms) {
            Ok(shares) => {
                let rate = self.rate_at(now_ms);
                Ok((shares, rate))
            },
            Err(e) => Err(e),
        }
    }

    /// `Vault::redeem` of `shares` sent by `sender` with `gas_available` left, up to the payout:
    /// the owner it acts for, the token to pay in, what the exit pays, and the rate before it.
    /// The program then sends `net` to the owner and hands the outcome to `settle_redeem`.
    pub fn begin_redeem_message(&mut self, sender: ActorId, shares: U256, gas_available: u64, now_ms: u64) -> (r: Result<
        (ActorId, ActorId, RedeemPreview, U256),
        VaultError,
    >)
        requires
            old(self).fee_fits(shares@, now_ms),
        ensures
            gas_available < GAS_ONE_CALL ==> r == Err::<(ActorId, ActorId, RedeemPreview, U256), VaultError>(
                VaultError::NotEnoughGas { required: GAS_ONE_CALL },
            ) && final(self).same_state(old(self)),
            gas_available >= GAS_ONE_CALL ==> match old(self).route(sender, SessionAction::Redeem, now_ms) {
                Err(e) => r == Err::<(ActorId, ActorId, RedeemPreview, U256), VaultError>(e)
                    && final(self).same_state(old(self)),
                Ok(owner) => {
                    let out = match r {
                        Ok(t) => Ok::<RedeemPreview, VaultError>(t.2),
                        Err(e) => Err::<RedeemPreview, VaultError>(e),
                    };
                    &&& old(self).redeem_post(&*final(self), owner, shares, now_ms, out)
                    &&& r matches Ok(t) ==> t.0 == owner && t.1 == old(self).underlying && t.3@ == old(self).rate(now_ms)
                },
            },
    {
        match ensure_gas(gas_available, GAS_ONE_CALL) {
            Ok(()) => {},
            Err(e) => return Err(e),
        }
        let owner = match self.actor_for(sender, SessionAction::Redeem, now_ms) {
            Ok(o) => o,
            Err(e) => return Err(e),
        };
        let rate = self.rate_at(now_ms);
        match self.begin_redeem(owner, shares, now_ms) {
            Ok(p) => Ok((owner, self.underlying, p, rate)),
            Err(e) => Err(e),
        }
    }

    /// The end of `Vault::redeem`: a payout that went through answers the preview; a refused
    /// one is undone with `revert_redeem` and answers its error.
    pub fn settle_redeem(
        &mut self,
        owner: ActorId,
        shares: U256,
        preview: RedeemPreview,
        payout: Result<(), VaultError>,
    ) -> (r: Result<RedeemPreview, VaultError>)
        ensures
            payout is Ok ==> r == Ok::<RedeemPreview, VaultError>(preview) && final(self).same_state(old(self)),
            payout matches Err(e) ==> r == Err::<RedeemPreview, VaultError>(e) && ({
                &&& final(self).same_config(old(self))
                &&& final(self).same_vesting(old(self))
                &&& final(self).same_unbonds(old(self))
                &&& final(self).same_sessions(old(self))
                &&& final(self).unbonding_total == old(self).unbonding_total
                &&& amounts(final(self).allowances@) == amounts(old(self).allowances@)
                &&& old(self).can_mint(owner, shares@) ==> old(self).minted(
                    &*final(self),
                    owner,
                    shares@,
                )
                &&& !old(self).can_mint(owner, shares@) ==> final(self).same_shares(old(self))
                &&& final(self).fees_accrued@ == sat_sub(old(self).fees_accrued@, preview.fee@)
                &&& final(self).holdings@ == sat_add(old(self).holdings@, preview.net@)
            }),
    {
        match payout {
            Ok(()) => Ok(preview),
            Err(e) => {
                self.revert_redeem(owner, shares, &preview);
                Err(e)
            },
        }
    }

    /// `Vault::request_unbond` sent by `sender`: the owner it acts for and the new entry.
    pub fn unbond_message(&mut self, sender: ActorId, shares: U256, now_ms: u64) -> (r: Result<
        (ActorId, Unbond),
        VaultError,
    >)
        requires
            old(self).next_unbond_id < u64::MAX,
        ensures
            old(self).route(sender, SessionAction::Unbond, now_ms) matches Err(e) ==> r == Err::<
                (ActorId, Unbond),
                VaultError,
            >(e) && final(self).same_state(old(self)),
            old(self).route(sender, SessionAction::Unbond, now_ms) matches Ok(owner) ==> ({
                let out = match r {
                    Ok(t) => Ok::<Unbond, VaultError>(t.1),
                    Err(e) => Err::<Unbond, VaultError>(e),
                };
                &&& old(self).unbond_post(&*final(self), owner, shares, now_ms, out)
                &&& r matches Ok(t) ==> t.0 == owner
            }),
    {
        let owner = match self.actor_for(sender, SessionAction::Unbond, now_ms) {
            Ok(o) => o,
            Err(e) => return Err(e),
        };
        match self.request_unbond(owner, shares, now_ms) {
            Ok(e) => Ok((owner, e)),
            Err(e) => Err(e),
        }
    }

    /// `Vault::claim` of entry `id` sent by `sender` with `gas_available` left, up to the
    /// payout: the owner it acts for, the token to pay in, and the entry taken. The program
    /// then pays the entry's assets and hands the outcome to `settle_claim`.
    pub fn begin_claim(&mut self, sender: ActorId, id: u64, gas_available: u64, now_ms: u64) -> (r: Result<
        (ActorId, ActorId, Unbond),
        VaultError,
    >)
        ensures
            gas_available < GAS_ONE_CALL ==> r == Err::<(ActorId, ActorId, Unbond), VaultError>(
                VaultError::NotEnoughGas { required: GAS_ONE_CALL },
            ) && final(self).same_state(old(self)),
            gas_available >= GAS_ONE_CALL ==> match old(self).route(sender, SessionAction::Claim, now_ms) {
                Err(e) => r == Err::<(ActorId, ActorId, Unbond), VaultError>(e)
                    && final(self).same_state(old(self)),
                Ok(owner) => {
                    let out = match r {
                        Ok(t) => Ok::<Unbond, VaultError>(t.2),
                        Err(e) => Err::<Unbond, VaultError>(e),
                    };
                    &&& old(self).take_post(&*final(self), owner, id, now_ms, out)
                    &&& r matches Ok(t) ==> t.0 == owner && t.1 == old(self).underlying
                },
            },
    {
        match ensure_gas(gas_available, GAS_ONE_CALL) {
            Ok(()) => {},
            Err(e) => return Err(e),
        }
        let owner = match self.actor_for(sender, SessionAction::Claim, now_ms) {
            Ok(o) => o,
            Err(e) => return Err(e),
        };
        match self.take_unbond(owner, id, now_ms) {
            Ok(e) => Ok((owner, self.underlying, e)),
            Err(e) => Err(e),
        }
    }

    /// The end of `Vault::claim`: a payout that went through answers the assets paid; a refused
    /// one puts the entry back and answers its error.
    pub fn settle_claim(&mut self, owner: ActorId, entry: Unbond, payout: Result<(), VaultError>) -> (r: Result<
        U256,
        VaultError,
    >)
        ensures
            payout is Ok ==> r == Ok::<U256, VaultError>(entry.assets) && final(self).same_state(old(self)),
            payout matches Err(e) ==> r == Err::<U256, VaultError>(e) && ({
                &&& final(self).same_config(old(self))
                &&& final(self).same_shares(old(self))
                &&& final(self).same_vesting(old(self))
                &&& final(self).same_sessions(old(self))
                &&& final(self).fees_accrued == old(self).fees_accrued
                &&& final(self).next_unbond_id == old(self).next_unbond_id
                &&& final(self).unbonding_total@ == sat_add(old(self).unbonding_total@, entry.assets@)
                &&& final(self).holdings@ == sat_add(old(self).holdings@, entry.assets@)
                &&& lists(final(self).unbonds@).contains_key(owner.key())
                &&& lists(final(self).unbonds@)[owner.key()].to_multiset() == list_of(
                    lists(old(self).unbonds@),
                    owner.key(),
                ).push(entry).to_multiset()
                &&& sorted_by_id(lists(final(self).unbonds@)[owner.key()])
                &&& lists(final(self).unbonds@).remove(owner.key()) == lists(
                    old(self).unbonds@,
                ).remove(owner.key())
            }),
    {
        match payout {
            Ok(()) => Ok(entry.assets),
            Err(e) => {
                self.restore_unbond(owner, entry);
                Err(e)
            },
        }
    }

    /// `Vault::fund_rewards` of `assets` with `gas_available` left, before the token call: the
    /// token to pull from. The program then pulls the assets from the sender and, once they
    /// arrived, calls `finish_fund_rewards`.
    pub fn check_fund_rewards(&self, assets: U256, gas_available: u64) -> (r: Result<ActorId, VaultError>)
        ensures
            gas_available < GAS_ONE_CALL ==> r == Err::<ActorId, VaultError>(
                VaultError::NotEnoughGas { required: GAS_ONE_CALL },
            ),
            gas_available >= GAS_ONE_CALL && assets@ == 0 ==> r == Err::<ActorId, VaultError>(
                VaultError::ZeroAmount,
            ),
            gas_available >= GAS_ONE_CALL && assets@ > 0 ==> r == Ok::<ActorId, VaultError>(
                self.underlying,
            ),
    {
        match ensure_gas(gas_available, GAS_ONE_CALL) {
            Ok(()) => {},
            Err(e) => return Err(e),
        }
        if assets.is_zero() {
            return Err(VaultError::ZeroAmount);
        }
        Ok(self.underlying)
    }

    /// The end of `Vault::fund_rewards` once the `assets` arrived: the holdings after funding
    /// and when the tranche ends.
    pub fn finish_fund_rewards(&mut self, assets: U256, now_ms: u64) -> (r: Result<(U256, u64), VaultError>)
        ensures
            ({
                let out = match r {
                    Ok(_) => Ok::<(), VaultError>(()),
                    Err(e) => Err::<(), VaultError>(e),
                };
                old(self).fund_post(&*final(self), assets@, now_ms, out)
            }),
            r matches Ok(t) ==> t.0 == final(self).holdings && t.1 == final(self).vest_end_ms,
    {
        match self.fund(assets, now_ms) {
            Ok(()) => Ok((self.holdings, self.vest_end_ms)),
            Err(e) => Err(e),
        }
    }

    /// `Vault::set_config` sent by `caller`: only the admin may change the configuration.
    pub fn set_config_message(
        &mut self,
        caller: ActorId,
        instant_fee_bps: u32,
        unbond_period_secs: u64,
        vesting_period_secs: u64,
    ) -> (r: Result<bool, VaultError>)
        ensures
            final(self).same_shares(old(self)),
            final(self).same_funds(old(self)),
            final(self).same_vesting(old(self)),
            final(self).same_unbonds(old(self)),
            final(self).same_sessions(old(self)),
            final(self).admin == old(self).admin,
            final(self).name == old(self).name,
            final(self).symbol == old(self).symbol,
            final(self).decimals == old(self).decimals,
            final(self).paused == old(self).paused,
            caller != old(self).admin ==> r == Err::<bool, VaultError>(VaultError::Unauthorized)
                && final(self).same_config(old(self)),
            caller == old(self).admin && !Self::config_ok(
                instant_fee_bps,
                unbond_period_secs,
                vesting_period_secs,
            ) ==> r == Err::<bool, VaultError>(VaultError::BadConfig) && final(self).same_config(
                old(self),
            ),
            caller == old(self).admin && Self::config_ok(
                instant_fee_bps,
                unbond_period_secs,
                vesting_period_secs,
            ) ==> r == Ok::<bool, VaultError>(true) && final(self).instant_fee_bps == instant_fee_bps
                && final(self).unbond_period_ms == ms_of(unbond_period_secs) && final(self).vesting_period_ms == ms_of(vesting_period_secs),
    {
        match self.ensure_admin(caller) {
            Ok(()) => {},
            Err(e) => return Err(e),
        }
        match self.set_config(instant_fee_bps, unbond_period_secs, vesting_period_secs) {
            Ok(()) => Ok(true),
            Err(e) => Err(e),
        }
    }

    /// `Vault::pause` (with `paused`) or `Vault::resume` (without), sent by `caller`.
    pub fn set_paused_message(&mut self, caller: ActorId, paused: bool) -> (r: Result<bool, VaultError>)
        ensures
            final(self).same_shares(old(self)),
            final(self).same_funds(old(self)),
            final(self).same_vesting(old(self)),
            final(self).same_unbonds(old(self)),
            final(self).same_sessions(old(self)),
            final(self).admin == old(self).admin,
            final(self).name == old(self).name,
            final(self).symbol == old(self).symbol,
            final(self).decimals == old(self).decimals,
            final(self).instant_fee_bps == old(self).instant_fee_bps,
            final(self).unbond_period_ms == old(self).unbond_period_ms,
            final(self).vesting_period_ms == old(self).vesting_period_ms,
            caller != old(self).admin ==> r == Err::<bool, VaultError>(VaultError::Unauthorized)
                && final(self).paused == old(self).paused,
            caller == old(self).admin ==> r == Ok::<bool, VaultError>(true) && final(self).paused
                == paused,
    {
        match self.ensure_admin(caller) {
            Ok(()) => {},
            Err(e) => return Err(e),
        }
        self.paused = paused;
        Ok(true)
    }

    /// `Vault::transfer_admin` sent by `caller`.
    pub fn transfer_admin_message(&mut self, caller: ActorId, to: ActorId) -> (r: Result<bool, VaultError>)
        ensures
            final(self).same_shares(old(self)),
            final(self).same_funds(old(self)),
            final(self).same_vesting(old(self)),
            final(self).same_unbonds(old(self)),
            final(self).same_sessions(old(self)),
            final(self).name == old(self).name,
            final(self).symbol == old(self).symbol,
            final(self).decimals == old(self).decimals,
            final(self).instant_fee_bps == old(self).instant_fee_bps,
            final(self).unbond_period_ms == old(self).unbond_period_ms,
            final(self).vesting_period_ms == old(self).vesting_period_ms,
            final(self).paused == old(self).paused,
            caller != old(self).admin ==> r == Err::<bool, VaultError>(VaultError::Unauthorized)
                && final(self).admin == old(self).admin,
            caller == old(self).admin && to.is_zero_spec() ==> r == Err::<bool, VaultError>(
                VaultError::ZeroAddress,
            ) && final(self).admin == old(self).admin,
            caller == old(self).admin && !to.is_zero_spec() ==> r == Ok::<bool, VaultError>(true)
                && final(self).admin == to,
    {
        match self.ensure_admin(caller) {
            Ok(()) => {},
            Err(e) => return Err(e),
        }
        if to.is_zero() {
            return Err(VaultError::ZeroAddress);
        }
        self.admin = to;
        Ok(true)
    }

    /// `Vault::collect_fees` sent by `caller` with `gas_available` left, up to the payout: the
    /// accrued fees leave the fee bucket and the holdings. Answers the token to pay in and the
    /// amount; the program then pays it to `to` and hands the outcome to `settle_collect_fees`.
    pub fn begin_collect_fees(&mut self, caller: ActorId, to: ActorId, gas_available: u64) -> (r: Result<
        (ActorId, U256),
        VaultError,
    >)
        ensures
            final(self).same_config(old(self)),
            final(self).same_shares(old(self)),
            final(self).same_vesting(old(self)),
            final(self).same_unbonds(old(self)),
            final(self).same_sessions(old(self)),
            final(self).unbonding_total == old(self).unbonding_total,
            gas_available < GAS_ONE_CALL ==> r == Err::<(ActorId, U256), VaultError>(
                VaultError::NotEnoughGas { required: GAS_ONE_CALL },
            ) && final(self).same_state(old(self)),
            gas_available >= GAS_ONE_CALL && caller != old(self).admin ==> r == Err::<(ActorId, U256), VaultError>(VaultError::Unauthorized)
                && final(self).same_state(old(self)),
            gas_available >= GAS_ONE_CALL && caller == old(self).admin && to.is_zero_spec() ==> r == Err::<(ActorId, U256), VaultError>(
                VaultError::ZeroAddress,
            ) && final(self).same_state(old(self)),
            gas_available >= GAS_ONE_CALL && caller == old(self).admin && !to.is_zero_spec() && old(self).fees_accrued@ == 0 ==> r
                == Err::<(ActorId, U256), VaultError>(VaultError::ZeroAmount) && final(self).same_state(old(self)),
            gas_available >= GAS_ONE_CALL && caller == old(self).admin && !to.is_zero_spec() && old(self).fees_accrued@ > 0 && old(self).fees_accrued@ > old(self).holdings@ ==> r == Err::<(ActorId, U256), VaultError>(
                VaultError::InsufficientReserve { available: old(self).holdings },
            ) && final(self).same_state(old(self)),
            gas_available >= GAS_ONE_CALL && caller == old(self).admin && !to.is_zero_spec() && old(self).fees_accrued@ > 0 && old(self).fees_accrued@ <= old(self).holdings@ ==> r == Ok::<(ActorId, U256), VaultError>(
                (old(self).underlying, old(self).fees_accrued),
            ) && final(self).fees_accrued@ == 0 && final(self).holdings@ == old(self).holdings@ - old(self).fees_accrued@,
    {
        match ensure_gas(gas_available, GAS_ONE_CALL) {
            Ok(()) => {},
            Err(e) => return Err(e),
        }
        match self.ensure_admin(caller) {
            Ok(()) => {},
            Err(e) => return Err(e),
        }
        if to.is_zero() {
            return Err(VaultError::ZeroAddress);
        }
        match self.take_fees() {
            Ok(amount) => Ok((self.underlying, amount)),
            Err(e) => Err(e),
        }
    }

    /// The end of `Vault::collect_fees`: a payout that went through answers the amount; a
    /// refused one puts the amount back with `restore_fees` and answers its error.
    pub fn settle_collect_fees(&mut self, amount: U256, payout: Result<(), VaultError>) -> (r: Result<
        U256,
        VaultError,
    >)
        ensures
            payout is Ok ==> r == Ok::<U256, VaultError>(amount) && final(self).same_state(old(self)),
            payout matches Err(e) ==> r == Err::<U256, VaultError>(e) && final(self).same_config(
                old(self),
            ) && final(self).same_shares(old(self)) && final(self).same_vesting(old(self))
                && final(self).same_unbonds(old(self)) && final(self).same_sessions(old(self))
                && final(self).unbonding_total == old(self).unbonding_total && final(self).fees_accrued@
                == sat_add(old(self).fees_accrued@, amount@) && final(self).holdings@ == sat_add(old(self).holdings@, amount@),
    {
        match payout {
            Ok(()) => Ok(amount),
            Err(e) => {
                self.restore_fees(amount);
                Err(e)
            },
        }
    }
}

} // verus!
