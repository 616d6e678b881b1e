use vale::actor::ActorId;
use vale::token::{FaucetConfig, TokenError, TokenState};
use vale::u256::U256;

fn a(n: u64) -> ActorId {
    ActorId::from_u64(n)
}

fn u(n: u128) -> U256 {
    U256::from_u128(n)
}

fn fresh() -> TokenState {
    TokenState { admin: a(1), faucet_amount: u(1_000), faucet_cooldown_ms: 60_000, ..Default::default() }
}

#[test]
fn mint_transfer_burn_round_trip() {
    let mut s = fresh();
    s.mint(a(2), u(100)).unwrap();
    assert_eq!(s.total_supply, u(100));
    s.transfer(a(2), a(3), u(40)).unwrap();
    assert_eq!(s.balance_of(&a(2)), u(60));
    assert_eq!(s.balance_of(&a(3)), u(40));
    assert_eq!(s.transfer(a(2), a(3), u(61)), Err(TokenError::InsufficientBalance));
    s.burn(a(3), u(40)).unwrap();
    assert_eq!(s.total_supply, u(60));
    assert!(s.balances.get(&a(3).key()).is_none(), "zero balances are pruned");
}

#[test]
fn allowance_is_spent_and_max_is_infinite() {
    let mut s = fresh();
    s.mint(a(2), u(100)).unwrap();
    s.approve(a(2), a(9), u(30)).unwrap();
    s.spend_allowance(a(2), a(9), u(10)).unwrap();
    assert_eq!(s.allowance(&a(2), &a(9)), u(20));
    assert_eq!(s.spend_allowance(a(2), a(9), u(21)), Err(TokenError::InsufficientAllowance));
    s.approve(a(2), a(9), U256::max_value()).unwrap();
    s.spend_allowance(a(2), a(9), u(99)).unwrap();
    assert_eq!(s.allowance(&a(2), &a(9)), U256::max_value());
}

#[test]
fn faucet_respects_cooldown() {
    let mut s = fresh();
    assert_eq!(s.faucet_claim(a(5), 10_000).unwrap(), u(1_000));
    assert_eq!(s.faucet_claim(a(5), 20_000), Err(TokenError::FaucetCooldown { next_claim_at: 70_000 }));
    assert_eq!(s.faucet_claim(a(5), 70_000).unwrap(), u(1_000));
    assert_eq!(s.balance_of(&a(5)), u(2_000));
    s.faucet_amount = U256::zero();
    assert_eq!(s.faucet_claim(a(6), 1), Err(TokenError::FaucetDisabled));
}

#[test]
fn pause_blocks_movement() {
    let mut s = fresh();
    s.mint(a(2), u(100)).unwrap();
    s.paused = true;
    assert_eq!(s.transfer(a(2), a(3), u(1)), Err(TokenError::Paused));
    assert_eq!(s.mint(a(2), u(1)), Err(TokenError::Paused));
    assert_eq!(s.faucet_claim(a(2), 1), Err(TokenError::Paused));
}

#[test]
fn roles() {
    let mut s = fresh();
    assert!(s.ensure_minter(a(1)).is_ok(), "admin can mint");
    assert_eq!(s.ensure_minter(a(7)), Err(TokenError::Unauthorized));
    s.minters.insert(a(7).key());
    assert!(s.ensure_minter(a(7)).is_ok());
    assert_eq!(s.ensure_admin(a(7)), Err(TokenError::Unauthorized));
}

// --- the commands of the program ------------------------------------------------------------

#[test]
fn constructor_sets_metadata_admin_and_faucet() {
    let s = TokenState::new("Vale Demo USDC".to_string(), "USDC".to_string(), 6, a(1), u(1_000), 60);
    assert_eq!(s.name, "Vale Demo USDC");
    assert_eq!(s.symbol, "USDC");
    assert_eq!(s.decimals, 6);
    assert_eq!(s.admin, a(1));
    assert_eq!(s.total_supply, U256::zero());
    assert_eq!(s.faucet_config(), FaucetConfig { amount: u(1_000), cooldown_secs: 60 });
    let long = TokenState::new("x".to_string(), "X".to_string(), 0, a(1), u(1), u64::MAX);
    assert_eq!(long.faucet_cooldown_ms, u64::MAX, "the cooldown saturates");
}

#[test]
fn commands_answer_true_and_check_roles() {
    let mut s = fresh();
    assert_eq!(s.admin_mint(a(7), a(2), u(100)), Err(TokenError::Unauthorized));
    assert_eq!(s.admin_mint(a(1), a(2), u(100)), Ok(true));
    assert_eq!(s.vft_transfer(a(2), a(3), u(40)), Ok(true));
    assert_eq!(s.vft_approve(a(3), a(4), u(25)), Ok(true));
    assert_eq!(s.vft_transfer_from(a(4), a(3), a(5), u(20)), Ok(true));
    assert_eq!(s.allowance(&a(3), &a(4)), u(5));
    assert_eq!(s.vft_transfer_from(a(4), a(3), a(5), u(6)), Err(TokenError::InsufficientAllowance));
    assert_eq!(s.vft_transfer_from(a(3), a(3), a(5), u(20)), Ok(true), "moving one's own tokens needs no allowance");
    assert_eq!(s.balance_of(&a(5)), u(40));
    assert_eq!(s.grant_minter(a(2), a(7)), Err(TokenError::Unauthorized));
    assert_eq!(s.grant_minter(a(1), a(7)), Ok(true));
    assert!(s.is_minter(a(7)) && s.is_minter(a(1)) && !s.is_minter(a(8)));
    assert_eq!(s.admin_burn(a(7), a(5), u(10)), Ok(true));
    assert_eq!(s.total_supply, u(90));
    assert_eq!(s.revoke_minter(a(1), a(7)), Ok(true));
    assert_eq!(s.admin_burn(a(7), a(5), u(10)), Err(TokenError::Unauthorized));
    assert_eq!(s.transfer_admin(a(1), ActorId::zero()), Err(TokenError::ZeroAddress));
    assert_eq!(s.transfer_admin(a(1), a(9)), Ok(true));
    assert_eq!(s.pause(a(1)), Err(TokenError::Unauthorized));
    assert_eq!(s.pause(a(9)), Ok(true));
    assert_eq!(s.vft_transfer(a(3), a(2), u(1)), Err(TokenError::Paused));
    assert_eq!(s.resume(a(9)), Ok(true));
    assert_eq!(s.set_faucet(a(9), u(5), 2), Ok(true));
    assert_eq!(s.faucet_config(), FaucetConfig { amount: u(5), cooldown_secs: 2 });
}

#[test]
fn minters_are_listed_in_key_order() {
    let mut s = fresh();
    s.grant_minter(a(1), a(30)).unwrap();
    s.grant_minter(a(1), a(4)).unwrap();
    s.grant_minter(a(1), ActorId::from_halves(1, 0)).unwrap();
    s.grant_minter(a(1), a(4)).unwrap();
    assert_eq!(s.minters(), vec![a(4), a(30), ActorId::from_halves(1, 0)]);
}

#[test]
fn claim_answers_the_amount_and_the_next_claim() {
    let mut s = fresh();
    assert_eq!(s.claim(a(5), 10_000), Ok((u(1_000), 70_000)));
    assert_eq!(s.next_claim_at(&a(5)), 70_000);
    assert_eq!(s.next_claim_at(&a(6)), 0, "never claimed");
    assert_eq!(s.claim(a(5), 69_999), Err(TokenError::FaucetCooldown { next_claim_at: 70_000 }));
    assert_eq!(s.claim(ActorId::zero(), 1), Err(TokenError::ZeroAddress));
}

#[test]
fn token_errors_each_have_an_input() {
    let mut s = fresh();
    assert_eq!(s.transfer(a(2), ActorId::zero(), u(1)), Err(TokenError::ZeroAddress));
    assert_eq!(s.transfer(a(2), a(3), U256::zero()), Err(TokenError::ZeroAmount));
    assert_eq!(s.approve(a(2), ActorId::zero(), u(1)), Err(TokenError::ZeroAddress));
    assert_eq!(s.mint(a(2), U256::zero()), Err(TokenError::ZeroAmount));
    s.mint(a(2), U256::max_value()).unwrap();
    assert_eq!(s.mint(a(3), u(1)), Err(TokenError::Overflow));
    assert_eq!(s.burn(a(3), u(1)), Err(TokenError::InsufficientBalance));
    assert_eq!(s.burn(a(2), U256::zero()), Err(TokenError::ZeroAmount));
}

#[test]
fn transfer_keeps_the_supply_equal_to_the_balances() {
    let mut s = fresh();
    s.mint(a(2), u(70)).unwrap();
    s.mint(a(3), u(30)).unwrap();
    s.transfer(a(2), a(3), u(70)).unwrap();
    s.transfer(a(3), a(3), u(50)).unwrap();
    let sum = s.balances.values().fold(U256::zero(), |acc, v| acc.checked_add(*v).unwrap());
    assert_eq!(sum, s.total_supply);
    assert_eq!(s.balances.len(), 1, "the emptied balance was pruned");
    assert_eq!(s.total_supply, u(100));
}

#[test]
fn a_refused_claim_answers_its_cause() {
    let mut s = fresh();
    s.paused = true;
    assert_eq!(s.claim(a(5), 1), Err(TokenError::Paused));
    s.paused = false;
    s.faucet_amount = U256::zero();
    assert_eq!(s.claim(a(5), 1), Err(TokenError::FaucetDisabled));
    s.faucet_amount = u(10);
    s.claim(a(5), 1).unwrap();
    assert_eq!(s.claim(a(5), 2), Err(TokenError::FaucetCooldown { next_claim_at: 60_001 }));
}
