//! The demo token: a fungible token with an admin and minter roles, a pause switch and a public
//! faucet with a per-account cooldown.
//!
//! Every function here is a transition of `TokenState`; the program around it reads the caller
//! and the clock, and emits the events.
use crate::actor::{ActorId, Key};
use crate::ledger::{
    lemma_total_empty, amount_in, amount_of, amounts, credit_in, credited, debit_in, debited, lemma_keys_ordered,
    no_zero_entry, spend_in, store_amount, total, with_amount, Allowances, Balances,
};
use crate::u256::{u256_max, U256};
use crate::vesting::{ms_of, sat_add_u64, secs_to_ms};
use std::collections::{BTreeMap, BTreeSet};
use vstd::prelude::*;
use vstd::std_specs::btree::spec_btree_keys_iter;
use vstd::std_specs::iter::IteratorSpec;

verus! {

broadcast use vstd::std_specs::btree::group_btree_axioms, crate::u256::lemma_u256_bounded;

#[derive(Clone, Debug, PartialEq, Eq, Structural)]
pub enum TokenError {
    Paused,
    ZeroAddress,
    ZeroAmount,
    InsufficientBalance,
    InsufficientAllowance,
    Unauthorized,
    Overflow,
    FaucetDisabled,
    /// Cooldown still running; `next_claim_at` is a unix timestamp in milliseconds.
    FaucetCooldown { next_claim_at: u64 },
}

#[derive(Clone, Copy, Debug, PartialEq, Eq, Structural)]
pub struct FaucetConfig {
    pub amount: U256,
    pub cooldown_secs: u64,
}

pub struct TokenState {
    pub name: String,
    pub symbol: String,
    pub decimals: u8,
    pub total_supply: U256,
    pub balances: Balances,
    pub allowances: Allowances,
    pub admin: ActorId,
    pub minters: BTreeSet<Key>,
    pub paused: bool,
    pub faucet_amount: U256,
    pub faucet_cooldown_ms: u64,
    pub last_claim: BTreeMap<Key, u64>,
}

impl Default for TokenState {
    /// No name, no supply, no roles beyond the zero admin, faucet off.
    fn default() -> (r: TokenState)
        ensures
            r.name@ == Seq::<char>::empty(),
            r.symbol@ == Seq::<char>::empty(),
            r.decimals == 0,
            r.total_supply@ == 0,
            r.balances@ == Map::<Key, U256>::empty(),
            r.allowances@ == Map::<(Key, Key), U256>::empty(),
            r.admin.is_zero_spec(),
            r.minters@ == Set::<Key>::empty(),
            !r.paused,
            r.faucet_amount@ == 0,
            r.faucet_cooldown_ms == 0,
            r.last_claim@ == Map::<Key, u64>::empty(),
    {
        TokenState {
            name: String::new(),
            symbol: String::new(),
            decimals: 0,
            total_supply: U256::zero(),
            balances: BTreeMap::new(),
            allowances: BTreeMap::new(),
            admin: ActorId::zero(),
            minters: BTreeSet::new(),
            paused: false,
            faucet_amount: U256::zero(),
            faucet_cooldown_ms: 0,
            last_claim: BTreeMap::new(),
        }
    }
}

// --- the model -----------------------------------------------------------------------------

impl TokenState {
    /// The balance of `who`, zero when absent.
    pub open spec fn balance(&self, who: ActorId) -> nat {
        amount_of(amounts(self.balances@), who.key())
    }

    /// What `spender` may still move of `owner`'s tokens.
    pub open spec fn allowance_of(&self, owner: ActorId, spender: ActorId) -> nat {
        amount_of(amounts(self.allowances@), (owner.key(), spender.key()))
    }

    /// `who` may mint and burn: the admin or a holder of the minter role.
    pub open spec fn can_mint(&self, who: ActorId) -> bool {
        self.admin == who || self.minters@.contains(who.key())
    }

    /// When `who` may claim from the faucet again; zero if it never claimed.
    pub open spec fn next_claim(&self, who: ActorId) -> u64 {
        if self.last_claim@.contains_key(who.key()) {
            sat_add_u64(self.last_claim@[who.key()], self.faucet_cooldown_ms)
        } else {
            0
        }
    }

    /// Everything but the two books and the supply is as in `o`.
    pub open spec fn same_settings(&self, o: &TokenState) -> bool {
        &&& self.name == o.name
        &&& self.symbol == o.symbol
        &&& self.decimals == o.decimals
        &&& self.admin == o.admin
        &&& self.minters@ == o.minters@
        &&& self.paused == o.paused
        &&& self.faucet_amount == o.faucet_amount
        &&& self.faucet_cooldown_ms == o.faucet_cooldown_ms
    }

    /// The supply and both books are as in `o`.
    pub open spec fn same_books(&self, o: &TokenState) -> bool {
        &&& self.total_supply == o.total_supply
        &&& amounts(self.balances@) == amounts(o.balances@)
        &&& amounts(self.allowances@) == amounts(o.allowances@)
    }

    /// `new` is `self` after `mint(to, value)` succeeded.
    pub open spec fn minted(&self, new: &TokenState, to: ActorId, value: nat) -> bool {
        &&& new.total_supply@ == self.total_supply@ + value
        &&& amounts(new.balances@) == credited(amounts(self.balances@), to.key(), value)
        &&& amounts(new.allowances@) == amounts(self.allowances@)
    }

    /// What `transfer(from, to, value)` does: `new` is the state after it and `r` its result.
    pub open spec fn transfer_post(&self, new: &TokenState, from: ActorId, to: ActorId, value: nat, r: Result<(), TokenError>) -> bool {
        &&& new.same_settings(self)
        &&& new.total_supply == self.total_supply
        &&& amounts(new.allowances@) == amounts(self.allowances@)
        &&& if self.paused {
            r == Err::<(), TokenError>(TokenError::Paused) && new.same_books(self)
        } else if to.is_zero_spec() {
            r == Err::<(), TokenError>(TokenError::ZeroAddress) && new.same_books(self)
        } else if value == 0 {
            r == Err::<(), TokenError>(TokenError::ZeroAmount) && new.same_books(self)
        } else if value > self.balance(from) {
            r == Err::<(), TokenError>(TokenError::InsufficientBalance) && new.same_books(self)
        } else {
            let mid = debited(amounts(self.balances@), from.key(), value);
            if amount_of(mid, to.key()) + value <= u256_max() {
                r is Ok && amounts(new.balances@) == credited(mid, to.key(), value)
            } else {
                r == Err::<(), TokenError>(TokenError::Overflow) && amounts(new.balances@) == mid
            }
        }
    }

    /// What `burn(from, value)` does: `new` is the state after it and `r` its result.
    pub open spec fn burn_post(&self, new: &TokenState, from: ActorId, value: nat, r: Result<(), TokenError>) -> bool {
        &&& new.same_settings(self)
        &&& amounts(new.allowances@) == amounts(self.allowances@)
        &&& if self.paused {
            r == Err::<(), TokenError>(TokenError::Paused) && new.same_books(self)
        } else if value == 0 {
            r == Err::<(), TokenError>(TokenError::ZeroAmount) && new.same_books(self)
        } else if value > self.balance(from) {
            r == Err::<(), TokenError>(TokenError::InsufficientBalance) && new.same_books(self)
        } else if self.total_supply@ < value {
            &&& r == Err::<(), TokenError>(TokenError::Overflow)
            &&& new.total_supply == self.total_supply
            &&& amounts(new.balances@) == debited(amounts(self.balances@), from.key(), value)
        } else {
            &&& r is Ok
            &&& new.total_supply@ == self.total_supply@ - value
            &&& amounts(new.balances@) == debited(amounts(self.balances@), from.key(), value)
        }
    }

    /// What `faucet_claim(who, now)` does: `new` is the state after it and `r` its result.
    pub open spec fn claim_post(&self, new: &TokenState, who: ActorId, now: u64, r: Result<U256, TokenError>) -> bool {
        &&& new.same_settings(self)
        &&& if self.paused {
            r == Err::<U256, TokenError>(TokenError::Paused) && new.same_books(self)
                && new.last_claim@ == self.last_claim@
        } else if self.faucet_amount@ == 0 {
            r == Err::<U256, TokenError>(TokenError::FaucetDisabled) && new.same_books(self)
                && new.last_claim@ == self.last_claim@
        } else if self.last_claim@.contains_key(who.key()) && now < self.next_claim(who) {
            r == Err::<U256, TokenError>(
                TokenError::FaucetCooldown { next_claim_at: self.next_claim(who) },
            ) && new.same_books(self) && new.last_claim@ == self.last_claim@
        } else {
            let minted = match r {
                Ok(_) => Ok::<(), TokenError>(()),
                Err(e) => Err::<(), TokenError>(e),
            };
            &&& self.mint_post(new, who, self.faucet_amount@, minted)
            &&& r is Ok ==> r == Ok::<U256, TokenError>(self.faucet_amount)
                && new.last_claim@ == self.last_claim@.insert(who.key(), now)
            &&& r is Err ==> new.last_claim@ == self.last_claim@
        }
    }

    /// The supply is the sum of the balances, and no zero balance is stored.
    pub open spec fn books_consistent(&self) -> bool {
        &&& self.balances@.dom().finite()
        &&& self.total_supply@ == total(amounts(self.balances@))
        &&& no_zero_entry(amounts(self.balances@))
    }

    /// What `mint(to, value)` does: `new` is the state after it and `r` its result.
    pub open spec fn mint_post(&self, new: &TokenState, to: ActorId, value: nat, r: Result<(), TokenError>) -> bool {
        &&& new.same_settings(self)
        &&& if self.paused {
            r == Err::<(), TokenError>(TokenError::Paused) && new.same_books(self)
        } else if to.is_zero_spec() {
            r == Err::<(), TokenError>(TokenError::ZeroAddress) && new.same_books(self)
        } else if value == 0 {
            r == Err::<(), TokenError>(TokenError::ZeroAmount) && new.same_books(self)
        } else if self.total_supply@ + value > u256_max() || self.balance(to) + value > u256_max() {
            r == Err::<(), TokenError>(TokenError::Overflow) && new.same_books(self)
        } else {
            r is Ok && self.minted(new, to, value)
        }
    }
}

// --- balances and allowances ---------------------------------------------------------------

impl TokenState {
    /// The balance of `who`.
    pub fn balance_of(&self, who: &ActorId) -> (r: U256)
        ensures
            r@ == self.balance(*who),
    {
        proof {
            lemma_keys_ordered();
        }
        amount_in(&self.balances, &who.key())
    }

    /// What `spender` may still move of `owner`'s tokens.
    pub fn allowance(&self, owner: &ActorId, spender: &ActorId) -> (r: U256)
        ensures
            r@ == self.allowance_of(*owner, *spender),
    {
        proof {
            lemma_keys_ordered();
        }
        amount_in(&self.allowances, &(owner.key(), spender.key()))
    }

    fn ensure_live(&self) -> (r: Result<(), TokenError>)
        ensures
            self.paused ==> r == Err::<(), TokenError>(TokenError::Paused),
            !self.paused ==> r is Ok,
    {
        if self.paused {
            Err(TokenError::Paused)
        } else {
            Ok(())
        }
    }

    /// Move `value` from `from` to `to`.
    pub fn transfer(&mut self, from: ActorId, to: ActorId, value: U256) -> (r: Result<
        (),
        TokenError,
    >)
        ensures
            old(self).transfer_post(&*final(self), from, to, value@, r),
            final(self).last_claim@ == old(self).last_claim@,
    {
        proof {
            lemma_keys_ordered();
        }
        if self.paused {
            return Err(TokenError::Paused);
        }
        if to.is_zero() {
            return Err(TokenError::ZeroAddress);
        }
        if value.is_zero() {
            return Err(TokenError::ZeroAmount);
        }
        if !debit_in(&mut self.balances, from.key(), value) {
            return Err(TokenError::InsufficientBalance);
        }
        if !credit_in(&mut self.balances, to.key(), value) {
            return Err(TokenError::Overflow);
        }
        Ok(())
    }

    /// Let `spender` move up to `value` of `owner`'s tokens; zero clears the allowance.
    pub fn approve(&mut self, owner: ActorId, spender: ActorId, value: U256) -> (r: Result<
        (),
        TokenError,
    >)
        ensures
            final(self).same_settings(old(self)),
            final(self).last_claim@ == old(self).last_claim@,
            final(self).total_supply == old(self).total_supply,
            amounts(final(self).balances@) == amounts(old(self).balances@),
            old(self).paused ==> r == Err::<(), TokenError>(TokenError::Paused) && amounts(
                final(self).allowances@,
            ) == amounts(old(self).allowances@),
            !old(self).paused && spender.is_zero_spec() ==> r == Err::<(), TokenError>(
                TokenError::ZeroAddress,
            ) && amounts(final(self).allowances@) == amounts(old(self).allowances@),
            !old(self).paused && !spender.is_zero_spec() ==> r is Ok && amounts(
                final(self).allowances@,
            ) == with_amount(amounts(old(self).allowances@), (owner.key(), spender.key()), value@),
    {
        proof {
            lemma_keys_ordered();
        }
        if self.paused {
            return Err(TokenError::Paused);
        }
        if spender.is_zero() {
            return Err(TokenError::ZeroAddress);
        }
        store_amount(&mut self.allowances, (owner.key(), spender.key()), value);
        Ok(())
    }

    /// Spend `value` of what `spender` may move for `owner`; an allowance of 2^256 - 1 is never
    /// spent.
    pub fn spend_allowance(&mut self, owner: ActorId, spender: ActorId, value: U256) -> (r: Result<
        (),
        TokenError,
    >)
        ensures
            final(self).same_settings(old(self)),
            final(self).last_claim@ == old(self).last_claim@,
            final(self).total_supply == old(self).total_supply,
            amounts(final(self).balances@) == amounts(old(self).balances@),
            old(self).allowance_of(owner, spender) == u256_max() ==> r is Ok && amounts(
                final(self).allowances@,
            ) == amounts(old(self).allowances@),
            old(self).allowance_of(owner, spender) != u256_max() && value@ > old(self).allowance_of(
                owner,
                spender,
            ) ==> r == Err::<(), TokenError>(TokenError::InsufficientAllowance) && amounts(
                final(self).allowances@,
            ) == amounts(old(self).allowances@),
            old(self).allowance_of(owner, spender) != u256_max() && value@ <= old(self).allowance_of(owner, spender) ==> r is Ok && amounts(final(self).allowances@)
                == debited(amounts(old(self).allowances@), (owner.key(), spender.key()), value@),
    {
        proof {
            lemma_keys_ordered();
        }
        if spend_in(&mut self.allowances, (owner.key(), spender.key()), value) {
            Ok(())
        } else {
            Err(TokenError::InsufficientAllowance)
        }
    }

    /// Create `value` tokens for `to`.
    pub fn mint(&mut self, to: ActorId, value: U256) -> (r: Result<(), TokenError>)
        ensures
            old(self).mint_post(&*final(self), to, value@, r),
            final(self).last_claim@ == old(self).last_claim@,
    {
        proof {
            lemma_keys_ordered();
        }
        if self.paused {
            return Err(TokenError::Paused);
        }
        if to.is_zero() {
            return Err(TokenError::ZeroAddress);
        }
        if value.is_zero() {
            return Err(TokenError::ZeroAmount);
        }
        let supply = match self.total_supply.checked_add(value) {
            Some(v) => v,
            None => return Err(TokenError::Overflow),
        };
        if !credit_in(&mut self.balances, to.key(), value) {
            return Err(TokenError::Overflow);
        }
        self.total_supply = supply;
        Ok(())
    }

    /// Destroy `value` tokens of `from`.
    pub fn burn(&mut self, from: ActorId, value: U256) -> (r: Result<(), TokenError>)
        ensures
            old(self).burn_post(&*final(self), from, value@, r),
            final(self).last_claim@ == old(self).last_claim@,
    {
        proof {
            lemma_keys_ordered();
        }
        if self.paused {
            return Err(TokenError::Paused);
        }
        if value.is_zero() {
            return Err(TokenError::ZeroAmount);
        }
        if !debit_in(&mut self.balances, from.key(), value) {
            return Err(TokenError::InsufficientBalance);
        }
        self.total_supply = match self.total_supply.checked_sub(value) {
            Some(v) => v,
            None => return Err(TokenError::Overflow),
        };
        Ok(())
    }
}

// --- faucet and roles ----------------------------------------------------------------------

impl TokenState {
    /// Mint the faucet amount to `who`, at most once per cooldown. Returns the amount minted.
    pub fn faucet_claim(&mut self, who: ActorId, now_ms: u64) -> (r: Result<U256, TokenError>)
        ensures
            old(self).claim_post(&*final(self), who, now_ms, r),
    {
        if self.paused {
            return Err(TokenError::Paused);
        }
        if self.faucet_amount.is_zero() {
            return Err(TokenError::FaucetDisabled);
        }
        proof {
            lemma_keys_ordered();
        }
        match self.last_claim.get(&who.key()) {
            Some(last) => {
                let next = last.saturating_add(self.faucet_cooldown_ms);
                if now_ms < next {
                    return Err(TokenError::FaucetCooldown { next_claim_at: next });
                }
            },
            None => {},
        }
        let amount = self.faucet_amount;
        match self.mint(who, amount) {
            Ok(()) => {},
            Err(e) => return Err(e),
        }
        self.last_claim.insert(who.key(), now_ms);
        Ok(amount)
    }

    /// When `who` may claim again (unix milliseconds); zero if it never claimed.
    pub fn next_claim_at(&self, who: &ActorId) -> (r: u64)
        ensures
            r == self.next_claim(*who),
    {
        proof {
            lemma_keys_ordered();
        }
        match self.last_claim.get(&who.key()) {
            Some(last) => last.saturating_add(self.faucet_cooldown_ms),
            None => 0,
        }
    }

    /// Only the admin passes.
    pub fn ensure_admin(&self, who: ActorId) -> (r: Result<(), TokenError>)
        ensures
            self.admin == who ==> r is Ok,
            self.admin != who ==> r == Err::<(), TokenError>(TokenError::Unauthorized),
    {
        if self.admin.same(&who) {
            Ok(())
        } else {
            Err(TokenError::Unauthorized)
        }
    }

    /// The admin and holders of the minter role pass.
    pub fn ensure_minter(&self, who: ActorId) -> (r: Result<(), TokenError>)
        ensures
            self.can_mint(who) ==> r is Ok,
            !self.can_mint(who) ==> r == Err::<(), TokenError>(TokenError::Unauthorized),
    {
        proof {
            lemma_keys_ordered();
        }
        if self.admin.same(&who) || self.minters.contains(&who.key()) {
            Ok(())
        } else {
            Err(TokenError::Unauthorized)
        }
    }
}

// --- construction and commands ---------------------------------------------------------------
//
// Each command of the program as the decision it makes; the program around these reads the
// caller and the clock, and emits the events.

impl TokenState {
    /// A fresh token administered by `admin`, with the faucet set to `faucet_amount` every
    /// `faucet_cooldown_secs`.
    pub fn new(
        name: String,
        symbol: String,
        decimals: u8,
        admin: ActorId,
        faucet_amount: U256,
        faucet_cooldown_secs: u64,
    ) -> (r: TokenState)
        ensures
            r.name == name,
            r.symbol == symbol,
            r.decimals == decimals,
            r.total_supply@ == 0,
            r.balances@ == Map::<Key, U256>::empty(),
            r.allowances@ == Map::<(Key, Key), U256>::empty(),
            r.admin == admin,
            r.minters@ == Set::<Key>::empty(),
            !r.paused,
            r.faucet_amount == faucet_amount,
            r.faucet_cooldown_ms == ms_of(faucet_cooldown_secs),
            r.last_claim@ == Map::<Key, u64>::empty(),
            r.books_consistent(),
    {
        let r = TokenState {
            name,
            symbol,
            decimals,
            total_supply: U256::zero(),
            balances: BTreeMap::new(),
            allowances: BTreeMap::new(),
            admin,
            minters: BTreeSet::new(),
            paused: false,
            faucet_amount,
            faucet_cooldown_ms: secs_to_ms(faucet_cooldown_secs),
            last_claim: BTreeMap::new(),
        };
        proof {
            lemma_total_empty::<Key>();
            assert(amounts(r.balances@) =~= Map::<Key, nat>::empty());
        }
        r
    }

    /// `Vft::approve` sent by `owner`.
    pub fn vft_approve(&mut self, owner: ActorId, spender: ActorId, value: U256) -> (r: Result<
        bool,
        TokenError,
    >)
        ensures
            final(self).same_settings(old(self)),
            final(self).last_claim@ == old(self).last_claim@,
            final(self).total_supply == old(self).total_supply,
            amounts(final(self).balances@) == amounts(old(self).balances@),
            old(self).paused ==> r == Err::<bool, TokenError>(TokenError::Paused) && amounts(
                final(self).allowances@,
            ) == amounts(old(self).allowances@),
            !old(self).paused && spender.is_zero_spec() ==> r == Err::<bool, TokenError>(
                TokenError::ZeroAddress,
            ) && amounts(final(self).allowances@) == amounts(old(self).allowances@),
            !old(self).paused && !spender.is_zero_spec() ==> r == Ok::<bool, TokenError>(true)
                && amounts(final(self).allowances@) == with_amount(
                amounts(old(self).allowances@),
                (owner.key(), spender.key()),
                value@,
            ),
    {
        match self.approve(owner, spender, value) {
            Ok(()) => Ok(true),
            Err(e) => Err(e),
        }
    }

    /// `Vft::transfer` sent by `from`.
    pub fn vft_transfer(&mut self, from: ActorId, to: ActorId, value: U256) -> (r: Result<
        bool,
        TokenError,
    >)
        ensures
            ({
                let moved = match r {
                    Ok(_) => Ok::<(), TokenError>(()),
                    Err(e) => Err::<(), TokenError>(e),
                };
                old(self).transfer_post(&*final(self), from, to, value@, moved)
            }),
            final(self).last_claim@ == old(self).last_claim@,
            r is Ok ==> r == Ok::<bool, TokenError>(true),
    {
        match self.transfer(from, to, value) {
            Ok(()) => Ok(true),
            Err(e) => Err(e),
        }
    }

    /// `Vft::transfer_from` sent by `spender`: the allowance is spent first unless the spender
    /// moves its own tokens.
    pub fn vft_transfer_from(&mut self, spender: ActorId, from: ActorId, to: ActorId, value: U256) -> (r: Result<
        bool,
        TokenError,
    >)
        ensures
            final(self).same_settings(old(self)),
            final(self).last_claim@ == old(self).last_claim@,
            final(self).total_supply == old(self).total_supply,
            r is Ok ==> r == Ok::<bool, TokenError>(true),
            spender != from && old(self).allowance_of(from, spender) != u256_max() && value@ > old(self).allowance_of(from, spender) ==> r == Err::<bool, TokenError>(
                TokenError::InsufficientAllowance,
            ) && final(self).same_books(old(self)),
            spender == from || old(self).allowance_of(from, spender) == u256_max() ==> amounts(
                final(self).allowances@,
            ) == amounts(old(self).allowances@),
            spender != from && old(self).allowance_of(from, spender) != u256_max() && value@ <= old(self).allowance_of(from, spender) ==> amounts(final(self).allowances@) == debited(
                amounts(old(self).allowances@),
                (from.key(), spender.key()),
                value@,
            ),
            spender == from || old(self).allowance_of(from, spender) == u256_max() || value@ <= old(self).allowance_of(from, spender) ==> ({
                &&& old(self).paused ==> r == Err::<bool, TokenError>(TokenError::Paused) && amounts(
                    final(self).balances@,
                ) == amounts(old(self).balances@)
                &&& !old(self).paused && to.is_zero_spec() ==> r == Err::<bool, TokenError>(
                    TokenError::ZeroAddress,
                ) && amounts(final(self).balances@) == amounts(old(self).balances@)
                &&& !old(self).paused && !to.is_zero_spec() && value@ == 0 ==> r == Err::<
                    bool,
                    TokenError,
                >(TokenError::ZeroAmount) && amounts(final(self).balances@) == amounts(
                    old(self).balances@,
                )
                &&& !old(self).paused && !to.is_zero_spec() && value@ > 0 && value@ > old(self).balance(from) ==> r == Err::<bool, TokenError>(TokenError::InsufficientBalance)
                    && amounts(final(self).balances@) == amounts(old(self).balances@)
                &&& !old(self).paused && !to.is_zero_spec() && value@ > 0 && value@ <= old(self).balance(from) ==> ({
                    let mid = debited(amounts(old(self).balances@), from.key(), value@);
                    if amount_of(mid, to.key()) + value@ <= u256_max() {
                        r is Ok && amounts(final(self).balances@) == credited(mid, to.key(), value@)
                    } else {
                        r == Err::<bool, TokenError>(TokenError::Overflow) && amounts(
                            final(self).balances@,
                        ) == mid
                    }
                })
            }),
    {
        if !spender.same(&from) {
            match self.spend_allowance(from, spender, value) {
                Ok(()) => {},
                Err(e) => return Err(e),
            }
        }
        match self.transfer(from, to, value) {
            Ok(()) => Ok(true),
            Err(e) => Err(e),
        }
    }

    /// `Admin::mint` sent by `caller`: the admin or a minter creates `value` for `to`.
    pub fn admin_mint(&mut self, caller: ActorId, to: ActorId, value: U256) -> (r: Result<
        bool,
        TokenError,
    >)
        ensures
            final(self).last_claim@ == old(self).last_claim@,
            !old(self).can_mint(caller) ==> r == Err::<bool, TokenError>(TokenError::Unauthorized)
                && final(self).same_books(old(self)) && final(self).same_settings(old(self)),
            old(self).can_mint(caller) ==> ({
                let minted = match r {
                    Ok(_) => Ok::<(), TokenError>(()),
                    Err(e) => Err::<(), TokenError>(e),
                };
                &&& old(self).mint_post(&*final(self), to, value@, minted)
                &&& r is Ok ==> r == Ok::<bool, TokenError>(true)
            }),
    {
        match self.ensure_minter(caller) {
            Ok(()) => {},
            Err(e) => return Err(e),
        }
        match self.mint(to, value) {
            Ok(()) => Ok(true),
            Err(e) => Err(e),
        }
    }

    /// `Admin::burn` sent by `caller`: the admin or a minter destroys `value` of `from`.
    pub fn admin_burn(&mut self, caller: ActorId, from: ActorId, value: U256) -> (r: Result<
        bool,
        TokenError,
    >)
        ensures
            final(self).last_claim@ == old(self).last_claim@,
            !old(self).can_mint(caller) ==> r == Err::<bool, TokenError>(TokenError::Unauthorized)
                && final(self).same_books(old(self)) && final(self).same_settings(old(self)),
            old(self).can_mint(caller) ==> ({
                let burned = match r {
                    Ok(_) => Ok::<(), TokenError>(()),
                    Err(e) => Err::<(), TokenError>(e),
                };
                &&& old(self).burn_post(&*final(self), from, value@, burned)
                &&& r is Ok ==> r == Ok::<bool, TokenError>(true)
            }),
    {
        match self.ensure_minter(caller) {
            Ok(()) => {},
            Err(e) => return Err(e),
        }
        match self.burn(from, value) {
            Ok(()) => Ok(true),
            Err(e) => Err(e),
        }
    }

    /// `Admin::grant_minter` sent by `caller`: only the admin may grant the role.
    pub fn grant_minter(&mut self, caller: ActorId, account: ActorId) -> (r: Result<
        bool,
        TokenError,
    >)
        ensures
            final(self).same_books(old(self)),
            final(self).last_claim@ == old(self).last_claim@,
            final(self).admin == old(self).admin,
            final(self).paused == old(self).paused,
            final(self).faucet_amount == old(self).faucet_amount,
            final(self).faucet_cooldown_ms == old(self).faucet_cooldown_ms,
            caller != old(self).admin ==> r == Err::<bool, TokenError>(TokenError::Unauthorized)
                && final(self).minters@ == old(self).minters@,
            caller == old(self).admin ==> r == Ok::<bool, TokenError>(true) && final(self).minters@ == old(self).minters@.insert(account.key()),
    {
        match self.ensure_admin(caller) {
            Ok(()) => {},
            Err(e) => return Err(e),
        }
        proof {
            lemma_keys_ordered();
        }
        self.minters.insert(account.key());
        Ok(true)
    }

    /// `Admin::revoke_minter` sent by `caller`: only the admin may revoke the role.
    pub fn revoke_minter(&mut self, caller: ActorId, account: ActorId) -> (r: Result<
        bool,
        TokenError,
    >)
        ensures
            final(self).same_books(old(self)),
            final(self).last_claim@ == old(self).last_claim@,
            final(self).admin == old(self).admin,
            final(self).paused == old(self).paused,
            final(self).faucet_amount == old(self).faucet_amount,
            final(self).faucet_cooldown_ms == old(self).faucet_cooldown_ms,
            caller != old(self).admin ==> r == Err::<bool, TokenError>(TokenError::Unauthorized)
                && final(self).minters@ == old(self).minters@,
            caller == old(self).admin ==> r == Ok::<bool, TokenError>(true) && final(self).minters@ == old(self).minters@.remove(account.key()),
    {
        match self.ensure_admin(caller) {
            Ok(()) => {},
            Err(e) => return Err(e),
        }
        proof {
            lemma_keys_ordered();
        }
        self.minters.remove(&account.key());
        Ok(true)
    }

    /// `Admin::set_faucet` sent by `caller`: the admin sets the faucet amount (zero turns it
    /// off) and cooldown.
    pub fn set_faucet(&mut self, caller: ActorId, amount: U256, cooldown_secs: u64) -> (r: Result<
        bool,
        TokenError,
    >)
        ensures
            final(self).same_books(old(self)),
            final(self).last_claim@ == old(self).last_claim@,
            final(self).admin == old(self).admin,
            final(self).minters@ == old(self).minters@,
            final(self).paused == old(self).paused,
            caller != old(self).admin ==> r == Err::<bool, TokenError>(TokenError::Unauthorized)
                && final(self).faucet_amount == old(self).faucet_amount && final(self).faucet_cooldown_ms == old(self).faucet_cooldown_ms,
            caller == old(self).admin ==> r == Ok::<bool, TokenError>(true) && final(self).faucet_amount == amount && final(self).faucet_cooldown_ms == ms_of(cooldown_secs),
    {
        match self.ensure_admin(caller) {
            Ok(()) => {},
            Err(e) => return Err(e),
        }
        self.faucet_amount = amount;
        self.faucet_cooldown_ms = secs_to_ms(cooldown_secs);
        Ok(true)
    }

    /// `Admin::transfer_admin` sent by `caller`.
    pub fn transfer_admin(&mut self, caller: ActorId, to: ActorId) -> (r: Result<bool, TokenError>)
        ensures
            final(self).same_books(old(self)),
            final(self).last_claim@ == old(self).last_claim@,
            final(self).minters@ == old(self).minters@,
            final(self).paused == old(self).paused,
            final(self).faucet_amount == old(self).faucet_amount,
            final(self).faucet_cooldown_ms == old(self).faucet_cooldown_ms,
            caller != old(self).admin ==> r == Err::<bool, TokenError>(TokenError::Unauthorized)
                && final(self).admin == old(self).admin,
            caller == old(self).admin && to.is_zero_spec() ==> r == Err::<bool, TokenError>(
                TokenError::ZeroAddress,
            ) && final(self).admin == old(self).admin,
            caller == old(self).admin && !to.is_zero_spec() ==> r == Ok::<bool, TokenError>(true)
                && final(self).admin == to,
    {
        match self.ensure_admin(caller) {
            Ok(()) => {},
            Err(e) => return Err(e),
        }
        if to.is_zero() {
            return Err(TokenError::ZeroAddress);
        }
        self.admin = to;
        Ok(true)
    }

    /// `Admin::pause` sent by `caller`.
    pub fn pause(&mut self, caller: ActorId) -> (r: Result<bool, TokenError>)
        ensures
            final(self).same_books(old(self)),
            final(self).last_claim@ == old(self).last_claim@,
            final(self).admin == old(self).admin,
            final(self).minters@ == old(self).minters@,
            final(self).faucet_amount == old(self).faucet_amount,
            final(self).faucet_cooldown_ms == old(self).faucet_cooldown_ms,
            caller != old(self).admin ==> r == Err::<bool, TokenError>(TokenError::Unauthorized)
                && final(self).paused == old(self).paused,
            caller == old(self).admin ==> r == Ok::<bool, TokenError>(true) && final(self).paused,
    {
        match self.ensure_admin(caller) {
            Ok(()) => {},
            Err(e) => return Err(e),
        }
        self.paused = true;
        Ok(true)
    }

    /// `Admin::resume` sent by `caller`.
    pub fn resume(&mut self, caller: ActorId) -> (r: Result<bool, TokenError>)
        ensures
            final(self).same_books(old(self)),
            final(self).last_claim@ == old(self).last_claim@,
            final(self).admin == old(self).admin,
            final(self).minters@ == old(self).minters@,
            final(self).faucet_amount == old(self).faucet_amount,
            final(self).faucet_cooldown_ms == old(self).faucet_cooldown_ms,
            caller != old(self).admin ==> r == Err::<bool, TokenError>(TokenError::Unauthorized)
                && final(self).paused == old(self).paused,
            caller == old(self).admin ==> r == Ok::<bool, TokenError>(true) && !final(self).paused,
    {
        match self.ensure_admin(caller) {
            Ok(()) => {},
            Err(e) => return Err(e),
        }
        self.paused = false;
        Ok(true)
    }

    /// `Admin::is_minter`: the admin counts as a minter.
    pub fn is_minter(&self, account: ActorId) -> (r: bool)
        ensures
            r == self.can_mint(account),
    {
        proof {
            lemma_keys_ordered();
        }
        self.admin.same(&account) || self.minters.contains(&account.key())
    }

    /// `Admin::minters`: the holders of the minter role, in key order.
    pub fn minters(&self) -> (r: Vec<ActorId>)
        ensures
            r@.map_values(|a: ActorId| a.key()) == spec_btree_keys_iter(
                &self.minters,
            ).remaining().unref(),
            r@.map_values(|a: ActorId| a.key()).to_set() == self.minters@,
            r@.map_values(|a: ActorId| a.key()).no_duplicates(),
    {
        proof {
            lemma_keys_ordered();
        }
        let ghost keys = spec_btree_keys_iter(&self.minters).remaining();
        let mut out: Vec<ActorId> = Vec::new();
        for k in it: self.minters.iter()
            invariant
                it.seq() == keys,
                out.len() == it.index(),
                out@.map_values(|a: ActorId| a.key()) == keys.take(it.index() as int).map_values(
                    |k: &Key| *k,
                ),
        {
            let ghost before = out@;
            out.push(ActorId::from_halves(k.0, k.1));
            proof {
                assert(*k == *keys[it.index() as int]);
                assert(it.index() < keys.len());
                assert(before.map_values(|a: ActorId| a.key()) == keys.take(it.index() as int).map_values(|k: &Key| *k));
                assert(out@ == before.push(ActorId { hi: k.0, lo: k.1 }));
                let n = it.index() as int;
                let lhs = out@.map_values(|a: ActorId| a.key());
                let rhs = keys.take(n + 1).map_values(|k: &Key| *k);
                assert(lhs.len() == rhs.len());
                assert forall|i: int| 0 <= i < lhs.len() implies lhs[i] == rhs[i] by {
                    if i < n {
                        assert(lhs[i] == before.map_values(|a: ActorId| a.key())[i]);
                        assert(rhs[i] == keys.take(n).map_values(|k: &Key| *k)[i]);
                    }
                }
                assert(lhs =~= rhs);
            }
        }
        proof {
            assert(keys.take(out.len() as int) =~= keys);
            assert(out@.map_values(|a: ActorId| a.key()) =~= keys.map_values(|k: &Key| *k));
            assert(keys.map_values(|k: &Key| *k) =~= keys.unref());
        }
        out
    }

    /// `Faucet::claim` sent by `to` at `now_ms`: the amount minted and when `to` may claim next.
    pub fn claim(&mut self, to: ActorId, now_ms: u64) -> (r: Result<(U256, u64), TokenError>)
        ensures
            final(self).same_settings(old(self)),
            r matches Ok(t) ==> t.0 == old(self).faucet_amount && t.1 == final(self).next_claim(to)
                && t.1 == sat_add_u64(now_ms, old(self).faucet_cooldown_ms),
            r is Ok <==> (!old(self).paused && old(self).faucet_amount@ > 0 && !(old(self).last_claim@.contains_key(to.key()) && now_ms < old(self).next_claim(to))
                && !to.is_zero_spec() && old(self).total_supply@ + old(self).faucet_amount@
                <= u256_max() && old(self).balance(to) + old(self).faucet_amount@ <= u256_max()),
            r is Ok ==> old(self).minted(&*final(self), to, old(self).faucet_amount@)
                && final(self).last_claim@ == old(self).last_claim@.insert(to.key(), now_ms),
            r is Err ==> final(self).same_books(old(self)) && final(self).last_claim@ == old(self).last_claim@,
            old(self).claim_post(
                &*final(self),
                to,
                now_ms,
                match r {
                    Ok(t) => Ok::<U256, TokenError>(t.0),
                    Err(e) => Err::<U256, TokenError>(e),
                },
            ),
    {
        let value = match self.faucet_claim(to, now_ms) {
            Ok(v) => v,
            Err(e) => return Err(e),
        };
        let next = self.next_claim_at(&to);
        Ok((value, next))
    }

    /// `Faucet::config`: the faucet amount and its cooldown in seconds.
    pub fn faucet_config(&self) -> (r: FaucetConfig)
        ensures
            r.amount == self.faucet_amount,
            r.cooldown_secs == self.faucet_cooldown_ms / 1000,
    {
        FaucetConfig { amount: self.faucet_amount, cooldown_secs: self.faucet_cooldown_ms / 1000 }
    }
}

} // verus!
