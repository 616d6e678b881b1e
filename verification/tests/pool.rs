use vale::actor::ActorId;
use vale::pool::{
    scale, PoolError, PoolState, SessionAction, UnstakePreview, MAX_FEE_BPS, MAX_SESSION_SECS,
    MAX_UNBOND_SECS, MIN_PAYOUT, MIN_STAKE, MIN_VESTING_SECS,
};
use vale::u256::U256;

fn a(n: u64) -> ActorId {
    ActorId::from_u64(n)
}

fn u(n: u128) -> U256 {
    U256::from_u128(n)
}

fn plus(x: U256, y: U256) -> U256 {
    x.checked_add(y).unwrap()
}

fn minus(x: U256, y: U256) -> U256 {
    x.checked_sub(y).unwrap()
}

fn times(x: U256, y: U256) -> U256 {
    x.checked_mul(y).unwrap()
}

fn over(x: U256, y: U256) -> U256 {
    x.div(y)
}

const T0: u64 = 1_700_000_000_000;
const ONE: u128 = 1_000_000_000_000;
const DAY: u64 = 86_400 * 1000;
const WEEK_SECS: u64 = 7 * 86_400;

/// Equal up to the virtual offset's dilution (a millionth) plus one unit of rounding.
fn near(x: U256, y: U256) -> bool {
    let d = if x.gt(&y) { minus(x, y) } else { minus(y, x) };
    d.le(&plus(over(y, u(1_000_000)), U256::one()))
}

fn pool(fee_bps: u32) -> PoolState {
    PoolState::new(a(1), "Vale kVARA".to_string(), "kVARA".to_string(), 12, fee_bps, WEEK_SECS, WEEK_SECS, U256::zero())
}

#[test]
fn first_stake_is_one_to_one_and_grows_the_reserve() {
    let mut p = pool(30);
    assert_eq!(p.stake(a(2), u(100 * ONE), T0).unwrap(), u(100 * ONE));
    assert_eq!(p.balance_of(&a(2)), u(100 * ONE));
    assert_eq!(p.reserve, u(100 * ONE));
    assert_eq!(p.total_assets(T0), u(100 * ONE));
    assert_eq!(p.rate_at(T0), scale());
}

#[test]
fn stake_after_growth_gets_fewer_shares_and_shares_stay_pro_rata() {
    let mut p = pool(0);
    p.stake(a(2), u(100 * ONE), T0).unwrap();
    p.fund(u(35 * ONE), T0).unwrap();
    let t = T0 + 7 * DAY;
    assert!(near(p.stake(a(3), u(135 * ONE), t).unwrap(), u(100 * ONE)));
    assert!(near(p.assets_for(u(100 * ONE), t).unwrap(), u(135 * ONE)));
    p.fund(u(27 * ONE), t).unwrap();
    let t2 = t + 7 * DAY;
    assert!(near(p.assets_for(p.balance_of(&a(2)), t2).unwrap(), u(148_500_000_000_000)));
    assert!(near(p.assets_for(p.balance_of(&a(3)), t2).unwrap(), u(148_500_000_000_000)));
}

#[test]
fn unstake_takes_fee_burns_and_draws_the_reserve() {
    let mut p = pool(30);
    p.stake(a(2), u(100 * ONE), T0).unwrap();
    let out = p.unstake(a(2), u(40 * ONE), T0).unwrap();
    assert_eq!(
        out,
        UnstakePreview { assets: u(40 * ONE), fee: u(40 * ONE * 30 / 10_000), net: u(40 * ONE - 40 * ONE * 30 / 10_000) }
    );
    assert_eq!(p.balance_of(&a(2)), u(60 * ONE));
    assert_eq!(p.fees_accrued, out.fee);
    assert_eq!(p.reserve, minus(u(100 * ONE), out.net));
    assert_eq!(p.rate_at(T0), scale(), "fees do not move the rate");
    assert_eq!(p.unstake(a(2), u(60 * ONE + 1), T0), Err(PoolError::InsufficientShares));
    p.revert_unstake(a(2), u(40 * ONE), &out);
    assert_eq!(p.balance_of(&a(2)), u(100 * ONE));
    assert_eq!(p.reserve, u(100 * ONE));
    assert_eq!(p.fees_accrued, U256::zero());
}

#[test]
fn empty_pool_keeps_its_rate_and_orphans_go_to_fees() {
    let mut p = pool(0);
    p.stake(a(2), u(100 * ONE), T0).unwrap();
    p.fund(u(7 * ONE), T0).unwrap();
    let t = T0 + 7 * DAY;
    let grown = plus(scale(), over(times(scale(), u(7)), u(100)));
    assert!(near(p.rate_at(t), grown));
    p.fund(u(70 * ONE), t).unwrap();
    p.unstake(a(2), u(100 * ONE), t).unwrap();
    assert_eq!(p.total_shares, U256::zero());
    assert!(near(p.rate_at(t), grown), "the rate survives the empty spell");
    let t2 = t + 7 * DAY / 2;
    let shares = p.stake(a(3), u(MIN_STAKE), t2).unwrap();
    assert!(near(p.fees_accrued, u(35 * ONE)), "swept {:?}", p.fees_accrued);
    assert!(near(p.assets_for(shares, t2).unwrap(), u(MIN_STAKE)), "the new holder owns their stake");
    assert!(p.assets_for(shares, t2 + 7 * DAY).unwrap().gt(&u(30 * ONE)), "the rest vests to the new holder");
}

#[test]
fn unbond_locks_assets_and_claims_from_the_reserve_after_the_period() {
    let mut p = pool(0);
    p.stake(a(2), u(100 * ONE), T0).unwrap();
    p.stake(a(3), u(100 * ONE), T0).unwrap();
    let e = p.request_unbond(a(2), u(50 * ONE), T0).unwrap();
    assert_eq!(e.assets, u(50 * ONE));
    assert_eq!(e.claimable_at, T0 + 7 * DAY);
    assert_eq!(p.unbonding_total, u(50 * ONE));
    assert_eq!(p.balance_of(&a(2)), u(50 * ONE));
    assert_eq!(p.rate_at(T0), scale(), "an unbond is rate neutral");
    assert_eq!(p.take_unbond(a(2), e.id, T0 + 1), Err(PoolError::UnbondNotReady { claimable_at: e.claimable_at }));
    assert_eq!(p.take_unbond(a(3), e.id, e.claimable_at), Err(PoolError::UnbondNotFound));
    let taken = p.take_unbond(a(2), e.id, e.claimable_at).unwrap();
    assert_eq!(taken, e);
    assert_eq!(p.reserve, u(150 * ONE));
    assert!(p.unbonds_of(&a(2)).is_empty());
    assert_eq!(p.unbonding_total, U256::zero());
    p.restore_unbond(a(2), taken.clone());
    assert_eq!(p.unbonds_of(&a(2)), vec![taken]);
    assert_eq!(p.reserve, u(200 * ONE));
    assert_eq!(p.unbonding_total, u(50 * ONE));
}

#[test]
fn unbonding_positions_do_not_earn() {
    let mut p = pool(0);
    p.stake(a(2), u(100 * ONE), T0).unwrap();
    p.stake(a(3), u(100 * ONE), T0).unwrap();
    p.request_unbond(a(2), u(100 * ONE), T0).unwrap();
    p.fund(u(10 * ONE), T0).unwrap();
    let t = T0 + 7 * DAY;
    assert!(near(p.assets_for(u(100 * ONE), t).unwrap(), u(110 * ONE)), "the stayer gets the whole tranche");
    assert_eq!(p.unbonds_of(&a(2))[0].assets, u(100 * ONE));
}

#[test]
fn minimum_stake_pause_and_config() {
    let mut p = pool(0);
    assert_eq!(p.stake(a(2), u(MIN_STAKE - 1), T0), Err(PoolError::BelowMinimum { min: u(MIN_STAKE) }));
    assert_eq!(p.stake(a(2), U256::zero(), T0), Err(PoolError::ZeroAmount));
    p.paused = true;
    assert_eq!(p.stake(a(2), u(ONE), T0), Err(PoolError::Paused));
    assert_eq!(p.request_unbond(a(2), u(1), T0), Err(PoolError::Paused));
    assert_eq!(p.set_config(MAX_FEE_BPS + 1, 60, 60), Err(PoolError::BadConfig));
    assert_eq!(p.set_config(10, 60, MIN_VESTING_SECS - 1), Err(PoolError::BadConfig));
    p.set_config(10, 60, 3_600).unwrap();
    assert_eq!((p.instant_fee_bps, p.unbond_period_ms, p.vesting_period_ms), (10, 60_000, 3_600_000));
    let clamped = PoolState::new(a(1), "k".to_string(), "kVARA".to_string(), 12, 0, 60, 1, U256::zero());
    assert_eq!(clamped.vesting_period_ms, MIN_VESTING_SECS * 1000);
}

#[test]
fn a_donation_cannot_inflate_the_price_per_share() {
    let mut p = pool(0);
    p.stake(a(2), u(2 * ONE), T0).unwrap();
    let all = p.balance_of(&a(2));
    p.unstake(a(2), minus(all, U256::one()), T0).unwrap_or_else(|e| panic!("leave one share: {e:?}"));
    p.fund(u(1_000 * ONE), T0).unwrap();
    let t = T0 + 7 * DAY;
    let victim = p.stake(a(3), u(1_999 * ONE), t).unwrap();
    let back = p.assets_for(victim, t).unwrap();
    let one_share = over(p.rate_at(t), scale());
    assert!(plus(plus(back, one_share), U256::one()).ge(&u(1_999 * ONE)), "the victim loses at most one share of rounding: {back:?}");
    let attacker = p.assets_for(p.balance_of(&a(2)), t).unwrap();
    assert!(attacker.lt(&u(ONE)), "the donation went to the pool, not back to the attacker: {attacker:?}");
}

#[test]
fn payouts_below_one_vara_are_refused_but_a_whole_position_always_exits() {
    let mut p = pool(MAX_FEE_BPS);
    assert_eq!(p.stake(a(2), u(MIN_STAKE - 1), T0), Err(PoolError::BelowMinimum { min: u(MIN_STAKE) }));
    p.stake(a(2), u(MIN_STAKE), T0).unwrap();
    let all = p.balance_of(&a(2));
    assert_eq!(
        p.unstake(a(2), over(all, u(2)), T0),
        Err(PoolError::BelowMinimum { min: u(MIN_PAYOUT) }),
        "half of it minus the fee is below the payout floor"
    );
    assert_eq!(p.request_unbond(a(2), over(all, u(4)), T0), Err(PoolError::BelowMinimum { min: u(MIN_PAYOUT) }));
    let out = p.unstake(a(2), all, T0).unwrap();
    assert!(out.net.ge(&u(MIN_PAYOUT)), "even at the maximum fee a minimum stake exits whole: {:?}", out.net);
    p.stake(a(3), u(MIN_STAKE), T0).unwrap();
    assert!(p.request_unbond(a(3), p.balance_of(&a(3)), T0).is_ok(), "and unbonds whole");
}

#[test]
fn constructor_bounds_the_config() {
    let p = PoolState::new(a(1), "k".to_string(), "kVARA".to_string(), 12, 20_000, 10 * 365 * 86_400, 1, U256::zero());
    assert_eq!(
        (p.instant_fee_bps, p.unbond_period_ms, p.vesting_period_ms),
        (MAX_FEE_BPS, MAX_UNBOND_SECS * 1000, MIN_VESTING_SECS * 1000)
    );
    let mut q = pool(0);
    assert_eq!(q.set_config(30, MAX_UNBOND_SECS + 1, 3_600), Err(PoolError::BadConfig));
}

#[test]
fn funding_is_frozen_while_paused() {
    let mut p = pool(0);
    p.paused = true;
    assert_eq!(p.fund(u(ONE), T0), Err(PoolError::Paused));
}

// --- the commands of the program ------------------------------------------------------------

#[test]
fn pool_commands_route_through_sessions() {
    let mut p = pool(30);
    let (owner, shares, rate) = p.stake_message(a(2), 100 * ONE, T0).unwrap();
    assert_eq!((owner, shares, rate), (a(2), u(100 * ONE), scale()));
    p.propose_session(a(2), a(9), 60, vec![SessionAction::Unstake, SessionAction::Claim], T0).unwrap();
    p.accept_session(a(9), a(2), T0).unwrap();
    assert_eq!(p.stake_message(a(9), 100 * ONE, T0), Err(PoolError::SessionNotAllowed));
    let (owner, preview, before) = p.begin_unstake(a(9), u(40 * ONE), T0).unwrap();
    assert_eq!((owner, before), (a(2), scale()));
    assert_eq!(preview.net, u(40 * ONE - 40 * ONE * 30 / 10_000));
    assert_eq!(p.settle_unstake(owner, u(40 * ONE), preview, Err(PoolError::TransferFailed("refused".to_string()))), Err(PoolError::TransferFailed("refused".to_string())));
    assert_eq!(p.balance_of(&a(2)), u(100 * ONE), "the failed payout was undone");
    assert_eq!(p.reserve, u(100 * ONE));
    let (owner, preview, _) = p.begin_unstake(a(9), u(40 * ONE), T0).unwrap();
    assert_eq!(p.settle_unstake(owner, u(40 * ONE), preview, Ok(())), Ok(preview));
    assert_eq!(p.balance_of(&a(2)), u(60 * ONE));
}

#[test]
fn admin_commands_and_fee_collection() {
    let mut p = pool(30);
    p.stake(a(2), u(100 * ONE), T0).unwrap();
    p.unstake(a(2), u(100 * ONE), T0).unwrap();
    let fees = p.fees_accrued;
    assert_eq!(p.begin_collect_fees(a(2), a(5)), Err(PoolError::Unauthorized));
    assert_eq!(p.begin_collect_fees(a(1), ActorId::zero()), Err(PoolError::ZeroAddress));
    let amount = p.begin_collect_fees(a(1), a(5)).unwrap();
    assert_eq!(amount, fees);
    assert_eq!(p.fees_accrued, U256::zero());
    assert_eq!(p.settle_collect_fees(amount, Err(PoolError::TransferFailed("refused".to_string()))), Err(PoolError::TransferFailed("refused".to_string())));
    assert_eq!(p.fees_accrued, fees, "a refused payout puts the fees back");
    assert_eq!(p.begin_collect_fees(a(1), a(5)), Ok(fees));
    assert_eq!(p.settle_collect_fees(fees, Ok(())), Ok(fees));
    assert_eq!(p.begin_collect_fees(a(1), a(5)), Err(PoolError::ZeroAmount));
    assert_eq!(p.set_config_message(a(2), 10, 60, 3_600), Err(PoolError::Unauthorized));
    assert_eq!(p.set_config_message(a(1), 10, 60, 3_600), Ok(true));
    assert_eq!(p.set_paused_message(a(1), true), Ok(true));
    assert!(p.paused);
    assert_eq!(p.set_paused_message(a(1), false), Ok(true));
    assert_eq!(p.transfer_admin_message(a(1), a(7)), Ok(true));
    assert_eq!(p.admin, a(7));
}

#[test]
fn rescue_is_limited_to_the_surplus() {
    let p = pool(0);
    let keep = vale::pool::KEEP_VARA;
    assert_eq!(p.check_rescue_surplus(a(2), a(5), u(1), 10 * ONE, 0), Err(PoolError::Unauthorized));
    assert_eq!(p.check_rescue_surplus(a(1), ActorId::zero(), u(1), 10 * ONE, 0), Err(PoolError::ZeroAddress));
    assert_eq!(p.check_rescue_surplus(a(1), a(5), U256::zero(), 10 * ONE, 0), Err(PoolError::ZeroAmount));
    assert_eq!(
        p.check_rescue_surplus(a(1), a(5), u(10 * ONE), 10 * ONE, 0),
        Err(PoolError::InsufficientReserve { available: u(10 * ONE - keep) })
    );
    assert_eq!(p.check_rescue_surplus(a(1), a(5), u(10 * ONE - keep), 10 * ONE, 0), Ok(()));
    assert_eq!(
        p.check_rescue_surplus(a(1), a(5), u(10 * ONE - keep), 10 * ONE, ONE),
        Err(PoolError::InsufficientReserve { available: u(9 * ONE - keep) }),
        "the value attached to the message is not surplus"
    );
}

#[test]
fn session_limits() {
    let mut p = pool(0);
    assert_eq!(p.propose_session(a(2), a(9), MAX_SESSION_SECS + 1, vec![SessionAction::Stake], T0), Err(PoolError::BadSession));
    assert_eq!(p.propose_session(a(2), a(9), 60, vec![], T0), Err(PoolError::BadSession));
    assert_eq!(p.propose_session(a(2), ActorId::zero(), 60, vec![SessionAction::Stake], T0), Err(PoolError::BadSession));
    assert!(p.session(a(2), T0).is_none());
    p.propose_session(a(2), a(9), 60, vec![SessionAction::Stake], T0).unwrap();
    assert_eq!(p.pending_session(a(2), T0).unwrap().key, a(9));
    p.accept_session(a(9), a(2), T0).unwrap();
    assert_eq!(p.session_owner(a(9), T0), Some(a(2)));
    assert_eq!(p.session_owner(a(9), T0 + 60_000), None, "expired");
    assert_eq!(p.session(a(2), T0).unwrap().expires_at, T0 + 60_000);
}

fn snapshot(p: &PoolState) -> (U256, U256, U256, U256, U256, u64, u64, U256) {
    (p.total_shares, p.balance_of(&a(3)), p.reserve, p.fees_accrued, p.vest_amount, p.vest_start_ms, p.vest_end_ms, p.base_rate)
}

#[test]
fn a_refused_stake_or_funding_leaves_the_pool_unchanged() {
    let mut p = pool(30);
    p.stake(a(2), U256::from_u128(100 * ONE), T0).unwrap();
    let one = U256::from_u128(ONE);
    p.reserve = U256::max_value().checked_sub(one).unwrap();
    p.fees_accrued = p.reserve.checked_sub(U256::from_u128(100 * ONE)).unwrap();
    let before = snapshot(&p);
    assert_eq!(p.stake(a(3), U256::from_u128(2 * ONE), T0 + DAY), Err(PoolError::Overflow));
    assert_eq!(snapshot(&p), before);
    assert_eq!(p.fund(U256::from_u128(2 * ONE), T0 + DAY), Err(PoolError::Overflow));
    assert_eq!(snapshot(&p), before);
}
