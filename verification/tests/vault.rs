use vale::actor::ActorId;
use vale::u256::U256;
use vale::vault::{
    ensure_gas, scale, transfer_outcome, RedeemPreview, SessionAction, VaultError, VaultState,
    GAS_ONE_CALL, MAX_FEE_BPS, MAX_UNBOND_SECS, MIN_DEPOSIT, MIN_VESTING_SECS,
};

fn a(n: u64) -> ActorId {
    ActorId::from_u64(n)
}

fn u(n: u64) -> U256 {
    U256::from_u64(n)
}

fn plus(x: U256, y: U256) -> U256 {
    x.checked_add(y).unwrap()
}

fn times(x: U256, y: U256) -> U256 {
    x.checked_mul(y).unwrap()
}

fn over(x: U256, y: U256) -> U256 {
    x.div(y)
}

const T0: u64 = 1_700_000_000_000;
const DAY: u64 = 86_400 * 1000;
const WEEK_SECS: u64 = 7 * 86_400;
const ONE: u64 = 1_000_000;

fn vault(fee_bps: u32) -> VaultState {
    VaultState::new(a(1), a(99), "k".to_string(), "kUSDC".to_string(), 6, fee_bps, WEEK_SECS, WEEK_SECS, U256::zero())
}

#[test]
fn first_deposit_is_one_to_one() {
    let mut v = vault(30);
    assert_eq!(v.check_deposit(u(ONE), T0).unwrap(), u(ONE));
    assert_eq!(v.settle_deposit(a(2), u(ONE), T0).unwrap(), u(ONE));
    assert_eq!(v.balance_of(&a(2)), u(ONE));
    assert_eq!(v.holdings, u(ONE));
    assert_eq!(v.total_assets(T0), u(ONE));
    assert_eq!(v.rate_at(T0), scale());
}

#[test]
fn deposit_after_growth_gets_fewer_shares() {
    let mut v = vault(0);
    v.settle_deposit(a(2), u(100 * ONE), T0).unwrap();
    v.fund(u(10 * ONE), T0).unwrap();
    let t = T0 + 7 * DAY;
    assert_eq!(v.check_deposit(u(110 * ONE), t).unwrap(), u(100 * ONE));
    assert_eq!(v.settle_deposit(a(3), u(110 * ONE), t).unwrap(), u(100 * ONE));
    assert_eq!(v.assets_for(u(100 * ONE), t).unwrap(), u(110 * ONE));
}

#[test]
fn redeem_takes_the_payout_out_of_holdings_before_the_transfer() {
    let mut v = vault(30);
    v.settle_deposit(a(2), u(ONE), T0).unwrap();
    let p = v.begin_redeem(a(2), u(400_000), T0).unwrap();
    assert_eq!(p, RedeemPreview { assets: u(400_000), fee: u(1_200), net: u(398_800) });
    assert_eq!(v.balance_of(&a(2)), u(600_000));
    assert_eq!(v.fees_accrued, u(1_200));
    assert_eq!(v.holdings, u(601_200), "the net payout is already out");
    assert_eq!(v.rate_at(T0), scale(), "nothing between here and the transfer sees a better rate");
    assert_eq!(v.begin_redeem(a(2), u(600_001), T0), Err(VaultError::InsufficientShares));
    v.revert_redeem(a(2), u(400_000), &p);
    assert_eq!(v.balance_of(&a(2)), u(ONE));
    assert_eq!(v.total_shares, u(ONE));
    assert_eq!(v.fees_accrued, U256::zero());
    assert_eq!(v.holdings, u(ONE));
}

#[test]
fn empty_vault_keeps_its_rate_and_orphans_go_to_fees() {
    let mut v = vault(0);
    v.settle_deposit(a(2), u(100 * ONE), T0).unwrap();
    v.fund(u(7 * ONE), T0).unwrap();
    let t = T0 + 7 * DAY;
    v.fund(u(70 * ONE), t).unwrap();
    v.begin_redeem(a(2), u(100 * ONE), t).unwrap();
    assert_eq!(v.total_shares, U256::zero());
    assert_eq!(v.rate_at(t), plus(scale(), over(times(scale(), u(7)), u(100))), "the rate survives the empty spell");
    let t2 = t + 7 * DAY / 2;
    let shares = v.settle_deposit(a(3), u(MIN_DEPOSIT), t2).unwrap();
    assert_eq!(v.fees_accrued, u(35 * ONE), "rewards vested with nobody holding are swept");
    assert_eq!(v.assets_for(shares, t2).unwrap(), u(MIN_DEPOSIT));
    assert!(v.assets_for(shares, t2 + 7 * DAY).unwrap().gt(&u(30 * ONE)), "the rest vests to the new holder");
}

#[test]
fn unbond_locks_assets_and_claims_after_period() {
    let mut v = vault(0);
    v.settle_deposit(a(2), u(ONE), T0).unwrap();
    v.settle_deposit(a(3), u(ONE), T0).unwrap();
    let e = v.request_unbond(a(2), u(500_000), T0).unwrap();
    assert_eq!(e.assets, u(500_000));
    assert_eq!(e.claimable_at, T0 + 7 * DAY);
    assert_eq!(v.unbonding_total, u(500_000));
    assert_eq!(v.balance_of(&a(2)), u(500_000));
    assert_eq!(v.rate_at(T0), scale(), "an unbond is rate neutral");
    assert_eq!(v.take_unbond(a(2), e.id, T0 + 1), Err(VaultError::UnbondNotReady { claimable_at: e.claimable_at }));
    assert_eq!(v.take_unbond(a(3), e.id, e.claimable_at), Err(VaultError::UnbondNotFound));
    let taken = v.take_unbond(a(2), e.id, e.claimable_at).unwrap();
    assert_eq!(taken, e);
    assert_eq!(v.holdings, u(1_500_000), "taken out before the transfer");
    assert!(v.unbonds_of(&a(2)).is_empty());
    assert_eq!(v.unbonding_total, U256::zero());
    v.restore_unbond(a(2), taken.clone());
    assert_eq!(v.unbonds_of(&a(2)), vec![taken]);
    assert_eq!(v.unbonding_total, u(500_000));
    assert_eq!(v.holdings, u(2 * ONE));
    v.fund(u(200_000), T0).unwrap();
    assert_eq!(v.assets_for(u(ONE), T0 + 7 * DAY).unwrap(), u(1_133_333), "1.7M distributable over the 1.5M staying shares");
}

#[test]
fn fees_leave_holdings_before_the_transfer() {
    let mut v = vault(30);
    v.settle_deposit(a(2), u(ONE), T0).unwrap();
    v.begin_redeem(a(2), u(ONE), T0).unwrap();
    assert_eq!(v.take_fees().unwrap(), u(3_000));
    assert_eq!((v.fees_accrued, v.holdings), (U256::zero(), U256::zero()));
    assert_eq!(v.take_fees(), Err(VaultError::ZeroAmount));
    v.restore_fees(u(3_000));
    assert_eq!((v.fees_accrued, v.holdings), (u(3_000), u(3_000)));
}

#[test]
fn minimum_deposit_pause_and_config() {
    let mut v = vault(0);
    assert_eq!(v.check_deposit(u(999), T0), Err(VaultError::BelowMinimum { min: u(1_000) }));
    assert_eq!(v.check_deposit(U256::zero(), T0), Err(VaultError::ZeroAmount));
    v.paused = true;
    assert_eq!(v.check_deposit(u(10_000), T0), Err(VaultError::Paused));
    assert_eq!(v.request_unbond(a(2), u(1), T0), Err(VaultError::Paused));
    assert_eq!(v.set_config(MAX_FEE_BPS + 1, 60, 60), Err(VaultError::BadConfig));
    assert_eq!(v.set_config(10, 60, MIN_VESTING_SECS - 1), Err(VaultError::BadConfig));
    v.set_config(10, 60, 3_600).unwrap();
    assert_eq!((v.instant_fee_bps, v.unbond_period_ms, v.vesting_period_ms), (10, 60_000, 3_600_000));
}

// --- the commands of the program ------------------------------------------------------------

#[test]
fn gas_and_token_replies() {
    assert_eq!(ensure_gas(GAS_ONE_CALL - 1, GAS_ONE_CALL), Err(VaultError::NotEnoughGas { required: GAS_ONE_CALL }));
    assert_eq!(ensure_gas(GAS_ONE_CALL, GAS_ONE_CALL), Ok(()));
    assert_eq!(transfer_outcome(Ok(Ok(true))), Ok(()));
    assert_eq!(transfer_outcome(Ok(Ok(false))), Err(VaultError::TokenRejected("transfer returned false".to_string())));
    assert_eq!(transfer_outcome(Ok(Err("Paused".to_string()))), Err(VaultError::TokenRejected("Paused".to_string())));
    assert_eq!(transfer_outcome(Err("Timeout".to_string())), Err(VaultError::TokenCall("Timeout".to_string())));
}

#[test]
fn deposit_and_redeem_commands() {
    let mut v = vault(30);
    assert_eq!(v.begin_deposit(a(2), u(ONE), 0, T0), Err(VaultError::NotEnoughGas { required: GAS_ONE_CALL }));
    assert_eq!(v.begin_deposit(a(2), u(ONE), GAS_ONE_CALL, T0), Ok((a(2), a(99), u(ONE))));
    assert_eq!(v.finish_deposit(a(2), u(ONE), T0), Ok((u(ONE), scale())));
    v.propose_session(a(2), a(9), 60, vec![SessionAction::Redeem], T0).unwrap();
    v.accept_session(a(9), a(2), T0).unwrap();
    assert_eq!(v.begin_deposit(a(9), u(ONE), GAS_ONE_CALL, T0), Err(VaultError::SessionNotAllowed));
    assert_eq!(v.begin_deposit(a(9), u(ONE), GAS_ONE_CALL, T0 + 60_000), Err(VaultError::SessionExpired));
    let (owner, token, p, rate) = v.begin_redeem_message(a(9), u(400_000), GAS_ONE_CALL, T0).unwrap();
    assert_eq!((owner, token, rate), (a(2), a(99), scale()));
    assert_eq!(p.net, u(398_800));
    let refused: Result<(), VaultError> = Err(VaultError::TokenCall("Timeout".to_string()));
    assert_eq!(v.settle_redeem(owner, u(400_000), p, refused), Err(VaultError::TokenCall("Timeout".to_string())));
    assert_eq!((v.balance_of(&a(2)), v.holdings, v.fees_accrued), (u(ONE), u(ONE), U256::zero()), "undone");
    assert_eq!(v.check_fund_rewards(U256::zero(), GAS_ONE_CALL), Err(VaultError::ZeroAmount));
    assert_eq!(v.check_fund_rewards(u(7), GAS_ONE_CALL), Ok(a(99)));
    assert_eq!(v.finish_fund_rewards(u(7 * ONE), T0), Ok((u(8 * ONE), T0 + 7 * DAY)));
}

#[test]
fn claim_and_fee_commands() {
    let mut v = vault(30);
    v.settle_deposit(a(2), u(ONE), T0).unwrap();
    let (owner, e) = v.unbond_message(a(2), u(500_000), T0).unwrap();
    assert_eq!(owner, a(2));
    assert_eq!(v.begin_claim(a(2), e.id, 0, e.claimable_at), Err(VaultError::NotEnoughGas { required: GAS_ONE_CALL }));
    let (owner, token, taken) = v.begin_claim(a(2), e.id, GAS_ONE_CALL, e.claimable_at).unwrap();
    assert_eq!((owner, token, taken), (a(2), a(99), e));
    let refused: Result<(), VaultError> = Err(VaultError::TokenRejected("Paused".to_string()));
    assert_eq!(v.settle_claim(owner, taken, refused.clone()), Err(VaultError::TokenRejected("Paused".to_string())));
    assert_eq!(v.unbonds_of(&a(2)), vec![e], "the entry is back");
    let (_, _, taken) = v.begin_claim(a(2), e.id, GAS_ONE_CALL, e.claimable_at).unwrap();
    assert_eq!(v.settle_claim(a(2), taken, Ok(())), Ok(u(500_000)));
    v.begin_redeem(a(2), u(500_000), T0).unwrap();
    assert_eq!(v.begin_collect_fees(a(2), a(5), GAS_ONE_CALL), Err(VaultError::Unauthorized));
    assert_eq!(v.begin_collect_fees(a(1), ActorId::zero(), GAS_ONE_CALL), Err(VaultError::ZeroAddress));
    let (token, amount) = v.begin_collect_fees(a(1), a(5), GAS_ONE_CALL).unwrap();
    assert_eq!((token, amount), (a(99), u(1_500)));
    assert_eq!(v.settle_collect_fees(amount, refused), Err(VaultError::TokenRejected("Paused".to_string())));
    assert_eq!(v.fees_accrued, u(1_500), "a refused payout puts the fees back");
    assert_eq!(v.set_config_message(a(1), 10, 60, 3_600), Ok(true));
    assert_eq!(v.set_paused_message(a(2), true), Err(VaultError::Unauthorized));
    assert_eq!(v.transfer_admin_message(a(1), a(7)), Ok(true));
}

#[test]
fn vault_info_and_quotes() {
    let mut v = vault(30);
    v.settle_deposit(a(2), u(ONE), T0).unwrap();
    let i = v.info(T0);
    assert_eq!((i.underlying, i.min_deposit, i.holdings), (a(99), u(MIN_DEPOSIT), u(ONE)));
    assert_eq!(v.preview_deposit(u(ONE), T0), u(ONE));
    assert_eq!(v.redeem_quote(u(400_000), T0), RedeemPreview { assets: u(400_000), fee: u(1_200), net: u(398_800) });
    assert_eq!(v.redeem_quote(U256::max_value(), T0), RedeemPreview { assets: U256::zero(), fee: U256::zero(), net: U256::zero() });
    let pos = v.position(a(2), T0);
    assert_eq!((pos.shares, pos.assets), (u(ONE), u(ONE)));
}

#[test]
fn the_constructor_and_set_config_keep_the_bounds() {
    let v = VaultState::new(a(1), a(99), "k".to_string(), "k".to_string(), 6, 20_000, 400 * 86_400, WEEK_SECS, U256::zero());
    assert_eq!(v.instant_fee_bps, MAX_FEE_BPS);
    assert_eq!(v.unbond_period_ms, MAX_UNBOND_SECS * 1000);
    let v = VaultState::new(a(1), a(99), "k".to_string(), "k".to_string(), 6, 25, 3_600, WEEK_SECS, U256::zero());
    assert_eq!((v.instant_fee_bps, v.unbond_period_ms), (25, 3_600_000));
    let mut v = vault(30);
    assert_eq!(v.set_config(10, MAX_UNBOND_SECS + 1, WEEK_SECS), Err(VaultError::BadConfig));
    assert_eq!(v.set_config(10, MAX_UNBOND_SECS, WEEK_SECS), Ok(()));
    assert_eq!(v.unbond_period_ms, MAX_UNBOND_SECS * 1000);
}

#[test]
fn a_refused_funding_leaves_the_vault_unchanged() {
    let mut v = vault(30);
    v.settle_deposit(a(2), u(100 * ONE), T0).unwrap();
    v.holdings = U256::max_value().checked_sub(u(ONE)).unwrap();
    v.fees_accrued = v.holdings.checked_sub(u(100 * ONE)).unwrap();
    let before = (v.holdings, v.fees_accrued, v.vest_amount, v.vest_start_ms, v.vest_end_ms, v.total_shares);
    assert_eq!(v.fund(u(2 * ONE), T0 + DAY), Err(VaultError::Overflow));
    assert_eq!((v.holdings, v.fees_accrued, v.vest_amount, v.vest_start_ms, v.vest_end_ms, v.total_shares), before);
}
