//! What every operation of the demo token keeps, and what two calls in a row give.
use crate::actor::ActorId;
use crate::ledger::{
    amount_of, amounts, debited, lemma_amount_le_total, lemma_no_zero_kept, lemma_total_credited,
    lemma_total_debited, lemma_total_moved, lemma_two_amounts_le_total,
};
use crate::token::{TokenError, TokenState};
use crate::u256::{u256_max, U256};
use crate::vesting::sat_add_u64;
use vstd::prelude::*;

verus! {

broadcast use crate::u256::lemma_u256_bounded;

/// A transfer keeps the supply equal to the sum of the balances and stores no zero balance;
/// on consistent books it never fails for overflow.
pub proof fn law_transfer_keeps_books(
    s: TokenState,
    t: TokenState,
    from: ActorId,
    to: ActorId,
    value: nat,
    r: Result<(), TokenError>,
)
    requires
        s.books_consistent(),
        s.transfer_post(&t, from, to, value, r),
    ensures
        t.books_consistent(),
        r != Err::<(), TokenError>(TokenError::Overflow),
{
    let m = amounts(s.balances@);
    assert(m.dom() == s.balances@.dom());
    if !s.paused && !to.is_zero_spec() && value > 0 && value <= s.balance(from) {
        let mid = debited(m, from.key(), value);
        lemma_total_moved(m, from.key(), to.key(), value);
        lemma_no_zero_kept(m, from.key(), to.key(), value);
        lemma_total_debited(m, from.key(), value);
        if from.key() == to.key() {
            assert(amount_of(mid, to.key()) + value == amount_of(m, from.key()));
        } else {
            lemma_two_amounts_le_total(m, from.key(), to.key());
            assert(amount_of(mid, to.key()) == amount_of(m, to.key()));
        }
        assert(amounts(t.balances@).dom() == t.balances@.dom());
    }
}

/// A mint adds the same amount to the supply and to the balances.
pub proof fn law_mint_keeps_books(
    s: TokenState,
    t: TokenState,
    to: ActorId,
    value: nat,
    r: Result<(), TokenError>,
)
    requires
        s.books_consistent(),
        s.mint_post(&t, to, value, r),
    ensures
        t.books_consistent(),
{
    let m = amounts(s.balances@);
    assert(m.dom() == s.balances@.dom());
    if r is Ok {
        lemma_total_credited(m, to.key(), value);
        lemma_no_zero_kept(m, to.key(), to.key(), value);
        assert(amounts(t.balances@).dom() == t.balances@.dom());
    }
}

/// A burn takes the same amount from the supply and from the balances; on consistent books it
/// never fails for overflow.
pub proof fn law_burn_keeps_books(
    s: TokenState,
    t: TokenState,
    from: ActorId,
    value: nat,
    r: Result<(), TokenError>,
)
    requires
        s.books_consistent(),
        s.burn_post(&t, from, value, r),
    ensures
        t.books_consistent(),
        r != Err::<(), TokenError>(TokenError::Overflow),
{
    let m = amounts(s.balances@);
    assert(m.dom() == s.balances@.dom());
    if !s.paused && value > 0 && value <= s.balance(from) {
        lemma_amount_le_total(m, from.key());
        lemma_total_debited(m, from.key(), value);
        lemma_no_zero_kept(m, from.key(), from.key(), value);
        assert(amounts(t.balances@).dom() == t.balances@.dom());
    }
}

/// A faucet claim keeps the supply equal to the sum of the balances.
pub proof fn law_claim_keeps_books(
    s: TokenState,
    t: TokenState,
    who: ActorId,
    now: u64,
    r: Result<U256, TokenError>,
)
    requires
        s.books_consistent(),
        s.claim_post(&t, who, now, r),
    ensures
        t.books_consistent(),
{
    let minted = match r {
        Ok(_) => Ok::<(), TokenError>(()),
        Err(e) => Err::<(), TokenError>(e),
    };
    if !s.paused && s.faucet_amount@ != 0 && !(s.last_claim@.contains_key(who.key()) && now
        < s.next_claim(who)) {
        law_mint_keeps_books(s, t, who, s.faucet_amount@, minted);
    }
}

/// After a successful claim at `now`, the same account is refused until the cooldown has run:
/// a claim at any `later` before `now + cooldown` answers when it may claim again.
pub proof fn law_faucet_cooldown(
    s: TokenState,
    t: TokenState,
    u: TokenState,
    who: ActorId,
    now: u64,
    later: u64,
    first: Result<U256, TokenError>,
    second: Result<U256, TokenError>,
)
    requires
        s.claim_post(&t, who, now, first),
        first is Ok,
        t.claim_post(&u, who, later, second),
        later < sat_add_u64(now, s.faucet_cooldown_ms),
    ensures
        second == Err::<U256, TokenError>(
            TokenError::FaucetCooldown { next_claim_at: sat_add_u64(now, s.faucet_cooldown_ms) },
        ),
{
}

} // verus!
