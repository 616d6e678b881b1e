//! Long runs of the pool and the vault: a replayable sequence of operations is driven through
//! each state machine. After every step the operation's own contract is checked (its result,
//! the cause of every refusal, the state left unchanged by a refusal or an immediate revert,
//! and how far the rate may move), no bystander is diluted, and the whole invariant set holds:
//! solvency, the value ledger, conservation of shares and unbond assets, nothing promised that
//! is not there, the release schedule, the base rate and the sessions. Each step also probes
//! the round trips on a copy of the state.
use std::collections::{BTreeMap, BTreeSet};
use vale::actor::{ActorId, Key};
use vale::pool::{
    self, PoolError, PoolState, SessionAction as P, UnstakePreview, BPS, MAX_FEE_BPS, MAX_SESSION_SECS,
    MAX_UNBOND_SECS, MAX_VESTING_SECS, MIN_PAYOUT, MIN_STAKE, MIN_VESTING_SECS,
};
use vale::u256::U256;
use vale::unbonds::Unbond;
use vale::vault::{self, RedeemPreview, SessionAction as V, VaultError, VaultState, MIN_DEPOSIT};

const T0: u64 = 1_700_000_000_000;
const DAY: u64 = 86_400_000;
const HORIZON: u64 = 400 * DAY;
const OWNERS: u64 = 4;
const KEYS: u64 = 8;
const STEPS: usize = 60;
const SEEDS: u64 = 200;

fn a(n: u64) -> ActorId {
    ActorId::from_u64(n)
}

fn u(n: u128) -> U256 {
    U256::from_u128(n)
}

fn plus(x: U256, y: U256) -> U256 {
    x.checked_add(y).expect("sum overflow")
}

fn minus(x: U256, y: U256) -> U256 {
    x.checked_sub(y).expect("difference underflow")
}

fn times(x: U256, y: U256) -> U256 {
    x.checked_mul(y).expect("product overflow")
}

fn over(x: U256, y: U256) -> U256 {
    x.div(y)
}

fn pct_of(v: U256, pct: u64) -> U256 {
    over(times(v, u(pct as u128)), u(100))
}

fn scale() -> U256 {
    pool::scale()
}

/// A small deterministic generator, so a run can be replayed from its seed.
struct Dice(u64);

impl Dice {
    fn next(&mut self, n: u64) -> u64 {
        self.0 = self.0.wrapping_mul(6_364_136_223_846_793_005).wrapping_add(1_442_695_040_888_963_407);
        (self.0 >> 33) % n
    }

    /// Log-uniform over `10^lo ..= 10^(hi + 1)`: every magnitude gets equal weight.
    fn magnitude(&mut self, lo: u32, hi: u32) -> u128 {
        let exp = lo + self.next((hi - lo + 1) as u64) as u32;
        let base = 10u128.pow(exp);
        base + self.next(u64::MAX) as u128 % (9 * base)
    }
}

// --- the pool ---------------------------------------------------------------------------------

const VARA: u128 = 1_000_000_000_000;

#[derive(Debug, Clone, PartialEq)]
struct PoolSnap {
    admin: ActorId,
    name: String,
    symbol: String,
    decimals: u8,
    total_shares: U256,
    balances: BTreeMap<Key, U256>,
    allowances: BTreeMap<(Key, Key), U256>,
    base_rate: U256,
    instant_fee_bps: u32,
    unbond_period_ms: u64,
    vesting_period_ms: u64,
    reserve: U256,
    fees_accrued: U256,
    unbonding_total: U256,
    vest_amount: U256,
    vest_start_ms: u64,
    vest_end_ms: u64,
    paused: bool,
    unbonds: BTreeMap<Key, Vec<Unbond>>,
    next_unbond_id: u64,
    sessions: BTreeMap<Key, pool::Session>,
    session_keys: BTreeMap<Key, ActorId>,
    pending_sessions: BTreeMap<Key, pool::Session>,
}

fn pool_snap(s: &PoolState) -> PoolSnap {
    PoolSnap {
        admin: s.admin,
        name: s.name.clone(),
        symbol: s.symbol.clone(),
        decimals: s.decimals,
        total_shares: s.total_shares,
        balances: s.balances.clone(),
        allowances: s.allowances.clone(),
        base_rate: s.base_rate,
        instant_fee_bps: s.instant_fee_bps,
        unbond_period_ms: s.unbond_period_ms,
        vesting_period_ms: s.vesting_period_ms,
        reserve: s.reserve,
        fees_accrued: s.fees_accrued,
        unbonding_total: s.unbonding_total,
        vest_amount: s.vest_amount,
        vest_start_ms: s.vest_start_ms,
        vest_end_ms: s.vest_end_ms,
        paused: s.paused,
        unbonds: s.unbonds.clone(),
        next_unbond_id: s.next_unbond_id,
        sessions: s.sessions.clone(),
        session_keys: s.session_keys.clone(),
        pending_sessions: s.pending_sessions.clone(),
    }
}

fn pool_from(sn: &PoolSnap) -> PoolState {
    PoolState {
        admin: sn.admin,
        name: sn.name.clone(),
        symbol: sn.symbol.clone(),
        decimals: sn.decimals,
        total_shares: sn.total_shares,
        balances: sn.balances.clone(),
        allowances: sn.allowances.clone(),
        base_rate: sn.base_rate,
        instant_fee_bps: sn.instant_fee_bps,
        unbond_period_ms: sn.unbond_period_ms,
        vesting_period_ms: sn.vesting_period_ms,
        reserve: sn.reserve,
        fees_accrued: sn.fees_accrued,
        unbonding_total: sn.unbonding_total,
        vest_amount: sn.vest_amount,
        vest_start_ms: sn.vest_start_ms,
        vest_end_ms: sn.vest_end_ms,
        paused: sn.paused,
        unbonds: sn.unbonds.clone(),
        next_unbond_id: sn.next_unbond_id,
        sessions: sn.sessions.clone(),
        session_keys: sn.session_keys.clone(),
        pending_sessions: sn.pending_sessions.clone(),
    }
}

/// How the rate may move across one step.
#[derive(Debug, Clone, Copy)]
enum Rate {
    Same,
    Up,
    /// The last share was burned: the empty pool re-quotes its kept rate, rounded up.
    Empty,
    /// An unstake that burned the last share was reverted: the shares are back but the base
    /// rate stays refreshed to the rate before the unstake.
    Revert { old_base: U256 },
    /// An unbond that leaves `left` shares: up by at most one rounding tick.
    Unbond { left: U256 },
}

struct Done {
    label: &'static str,
    /// The state was meant to change; when false the step must leave it as it was.
    changed: bool,
    rate: Rate,
    /// Accounts whose claim may legitimately move.
    actors: Vec<Key>,
}

fn done(label: &'static str, changed: bool, rate: Rate, actors: Vec<Key>) -> Done {
    Done { label, changed, rate, actors }
}

fn refused(label: &'static str) -> Done {
    done(label, false, Rate::Same, Vec::new())
}

struct PoolWorld {
    s: PoolState,
    now: u64,
    value_in: U256,
    value_out: U256,
    hits: BTreeMap<&'static str, u32>,
}

fn empty_tick() -> U256 {
    plus(over(scale(), pool::virtual_shares()), U256::one())
}

fn pool_claims(s: &PoolState, now: u64) -> BTreeMap<Key, U256> {
    s.balances.iter().map(|(k, b)| (*k, s.assets_for(*b, now).unwrap_or(U256::max_value()))).collect()
}

fn key_bound_elsewhere<S>(keys: &BTreeMap<Key, ActorId>, sessions: &BTreeMap<Key, S>, expiry: impl Fn(&S) -> u64, key: ActorId, owner: ActorId, now: u64) -> bool {
    keys.get(&key.key()).is_some_and(|other| *other != owner && sessions.get(&other.key()).is_some_and(|x| now < expiry(x)))
}

fn pool_sessions_hold(s: &PoolState, now: u64, ctx: &str) {
    assert_eq!(s.sessions.len(), s.session_keys.len(), "{ctx}: sessions and session_keys differ in size");
    for (owner, x) in &s.sessions {
        assert!(!x.key.is_zero() && x.key.key() != *owner && !x.actions.is_empty(), "{ctx}: malformed session {x:?}");
        assert_eq!(s.session_keys.get(&x.key.key()).map(|o| o.key()), Some(*owner), "{ctx}: a session key does not map back");
    }
    for (key, owner) in &s.session_keys {
        assert_eq!(s.sessions.get(&owner.key()).map(|x| x.key.key()), Some(*key), "{ctx}: a bound key has no matching session");
    }
    for (owner, x) in &s.pending_sessions {
        assert!(!x.key.is_zero() && x.key.key() != *owner && !x.actions.is_empty(), "{ctx}: malformed proposal {x:?}");
    }
    for id in 1..=KEYS {
        let sender = a(id);
        let live = s.session_keys.get(&sender.key()).map(|o| (*o, &s.sessions[&o.key()])).filter(|(_, x)| now < x.expires_at);
        for act in [P::Stake, P::Unstake, P::Unbond, P::Claim] {
            let expect = match live {
                None => Ok(sender),
                Some((owner, x)) if x.actions.contains(&act) => Ok(owner),
                Some(_) => Err(PoolError::SessionNotAllowed),
            };
            assert_eq!(s.actor_for(sender, act, now), expect, "{ctx}: routing of {sender:?} for {act:?}");
        }
    }
}

fn pool_invariants(w: &PoolWorld, ctx: &str) {
    let s = &w.s;
    let now = w.now;
    let locked = s.locked_rewards(now);
    let owed = plus(plus(s.fees_accrued, s.unbonding_total), locked);
    assert!(s.reserve.ge(&owed), "{ctx}: insolvent");
    assert!(s.distributable(now).le(&s.reserve), "{ctx}: distributable exceeds the reserve");
    assert_eq!(s.reserve, minus(w.value_in, w.value_out), "{ctx}: the reserve is not what came in minus what left");

    let sum = s.balances.values().fold(U256::zero(), |acc, b| plus(acc, *b));
    assert_eq!(s.total_shares, sum, "{ctx}: total_shares is not the sum of the balances");
    assert!(s.balances.values().all(|b| !b.is_zero()), "{ctx}: a zero balance is stored");

    let mut ids = BTreeSet::new();
    let mut unbonding = U256::zero();
    for list in s.unbonds.values() {
        assert!(!list.is_empty(), "{ctx}: an empty unbond list is kept");
        for pair in list.windows(2) {
            assert!(pair[0].id < pair[1].id, "{ctx}: unbonds not ascending");
        }
        for e in list {
            assert!(e.id < s.next_unbond_id && ids.insert(e.id), "{ctx}: unbond id {} repeated or beyond the next id", e.id);
            assert!(e.claimable_at >= e.requested_at && e.assets.ge(&u(MIN_PAYOUT)) && !e.shares.is_zero(), "{ctx}: malformed unbond {e:?}");
            unbonding = plus(unbonding, e.assets);
        }
    }
    assert_eq!(s.unbonding_total, unbonding, "{ctx}: unbonding_total is not the sum of the entries");

    let d = s.distributable(now);
    if !s.total_shares.is_zero() {
        let promised = pool_claims(s, now).values().fold(U256::zero(), |acc, c| acc.saturating_add(*c));
        assert!(promised.le(&d), "{ctx}: holders are promised {promised:?} but only {d:?} is distributable");
    }
    assert!(s.rate_at(now).ge(&s.base_rate), "{ctx}: the rate fell below the base rate");
    assert!(s.base_rate.ge(&scale()), "{ctx}: the base rate is below 1.0");

    assert!(locked.le(&s.vest_amount), "{ctx}: more is locked than the tranche");
    assert!(s.vest_end_ms >= s.vest_start_ms, "{ctx}: the vesting window is inverted");
    assert!(s.locked_rewards(s.vest_end_ms).is_zero() && s.locked_rewards(s.vest_end_ms + 1).is_zero(), "{ctx}: rewards still locked at the end");
    let mut prev = locked;
    for delta in [1u64, 1_000, DAY, 30 * DAY, HORIZON] {
        let later = s.locked_rewards(now + delta);
        assert!(later.le(&prev), "{ctx}: locked rewards rose after +{delta}ms");
        prev = later;
    }
    pool_sessions_hold(s, now, ctx);
}

/// The round trips, on a copy of the state. Returns a label for the rare paths reached.
fn pool_probes(w: &PoolWorld, probe: u128, ctx: &str) -> Option<&'static str> {
    let s = &w.s;
    let now = w.now;
    let amount = u(probe);
    let sh = s.shares_for(amount, now).expect("shares_for overflow");
    assert!(s.assets_for(sh, now).unwrap().le(&amount), "{ctx}: assets_for(shares_for(A)) > A");
    for bal in s.balances.values() {
        let back = s.shares_for(s.assets_for(*bal, now).unwrap(), now).unwrap();
        assert!(back.le(bal), "{ctx}: shares_for(assets_for(b)) > b");
    }
    if s.paused || probe < MIN_STAKE {
        return None;
    }
    let who = a(OWNERS + 1);
    let d_before = s.distributable(now);
    let rate_before = s.rate_at(now);
    let shares_before = s.total_shares;
    let mut c = pool_from(&pool_snap(s));
    let minted = c.stake(who, amount, now);
    if sh.is_zero() {
        assert_eq!(minted, Err(PoolError::BelowMinimum { min: u(MIN_STAKE) }), "{ctx}: a zero-share stake was not refused");
        return Some("probe: zero-share stake refused");
    }
    assert_eq!(minted, Ok(sh), "{ctx}: the probe stake minted other than quoted");
    let staked = pool_snap(&c);
    let preview = c.preview_unstake(sh, now).unwrap();
    let out = match c.unstake(who, sh, now) {
        Ok(out) => out,
        Err(PoolError::BelowMinimum { min }) => {
            assert!(min == u(MIN_PAYOUT) && preview.net.lt(&u(MIN_PAYOUT)), "{ctx}: a fresh stake's unstake refused although its net clears the floor");
            let mut c2 = pool_from(&staked);
            let tick = plus(over(c2.rate_at(now), scale()), u(3));
            return match c2.request_unbond(who, sh, now) {
                Ok(e) => {
                    assert!(e.assets.le(&amount), "{ctx}: unbond of a fresh stake quotes more than it brought");
                    Some("probe: unstake below payout floor, unbond ok")
                }
                Err(PoolError::BelowMinimum { min }) => {
                    assert!(min == u(MIN_PAYOUT) && amount.lt(&plus(u(MIN_STAKE), tick)), "{ctx}: a fresh stake can neither be unstaked nor unbonded");
                    Some("probe: fresh minimum stake cannot exit")
                }
                Err(e) => panic!("{ctx}: unbond of a fresh stake refused: {e:?}"),
            };
        }
        Err(e) => panic!("{ctx}: a fresh stake cannot be unstaked: {e:?}"),
    };
    assert!(out.assets.le(&amount), "{ctx}: the round trip returned more than it brought");
    assert!(plus(out.net, out.fee) == out.assets && out.fee.le(&over(out.assets, u(10))), "{ctx}: fee split wrong: {out:?}");
    if shares_before.is_zero() {
        let residual = c.distributable(now);
        let vs = pool::virtual_shares();
        let slice = plus(over(times(amount, vs), plus(vs, sh)), U256::one());
        assert!(residual.le(&slice), "{ctx}: a round trip on an empty pool left more than the virtual slice");
        assert_eq!(c.fees_accrued, plus(plus(s.fees_accrued, d_before), out.fee), "{ctx}: orphaned VARA did not land in fees");
    } else {
        assert!(c.distributable(now).ge(&d_before), "{ctx}: the round trip lowered what is distributable");
    }
    assert!(c.rate_at(now).ge(&rate_before), "{ctx}: the round trip lowered the rate");
    assert_eq!(c.total_shares, shares_before, "{ctx}: the round trip changed the supply");
    assert!(c.balance_of(&who).is_zero(), "{ctx}: the visitor kept shares");
    None
}

fn pool_hit(w: &mut PoolWorld, label: &'static str) {
    *w.hits.entry(label).or_default() += 1;
}

fn pool_step(w: &mut PoolWorld, d: &mut Dice, before: &PoolSnap, ctx: &str) -> Done {
    let now = w.now;
    let who = a(1 + d.next(OWNERS));
    match d.next(15) {
        0 | 1 => {
            let amount = u(d.magnitude(12, 18));
            let quote = w.s.shares_for(amount, now).unwrap();
            let bal = w.s.balance_of(&who);
            match w.s.stake(who, amount, now) {
                Ok(shares) => {
                    pool_hit(w, "stake");
                    w.value_in = plus(w.value_in, amount);
                    assert!(!shares.is_zero() && shares == quote, "{ctx}: minted other than quoted");
                    assert_eq!(w.s.balance_of(&who), plus(bal, shares), "{ctx}: balance after stake");
                    assert_eq!(w.s.total_shares, plus(before.total_shares, shares), "{ctx}: supply after stake");
                    assert_eq!(w.s.reserve, plus(before.reserve, amount), "{ctx}: reserve after stake");
                    if !before.total_shares.is_zero() {
                        assert_eq!(w.s.fees_accrued, before.fees_accrued, "{ctx}: a stake into a live pool touched the fees");
                    }
                    done("stake", true, Rate::Up, vec![who.key()])
                }
                Err(e) => {
                    let justified = match &e {
                        PoolError::Paused => w.s.paused,
                        PoolError::ZeroAmount => amount.is_zero(),
                        PoolError::BelowMinimum { min } => *min == u(MIN_STAKE) && (amount.lt(&u(MIN_STAKE)) || quote.is_zero()),
                        _ => false,
                    };
                    assert!(justified, "{ctx}: a stake refused without cause: {e:?}");
                    refused("stake/err")
                }
            }
        }
        2 | 3 => {
            let bal = w.s.balance_of(&who);
            let shares = pct_of(bal, d.next(120));
            let dist = w.s.distributable(now);
            let quote: Option<UnstakePreview> = if shares.le(&w.s.total_shares) { w.s.preview_unstake(shares, now).ok() } else { None };
            let payout_fails = d.next(4) == 0;
            match w.s.unstake(who, shares, now) {
                Ok(p) => {
                    assert_eq!(Some(p), quote, "{ctx}: the unstake paid other than the preview");
                    assert!(p.assets.le(&dist), "{ctx}: the unstake paid more than is distributable");
                    assert!(plus(p.net, p.fee) == p.assets && p.net.ge(&u(MIN_PAYOUT)), "{ctx}: bad split {p:?}");
                    assert_eq!(p.fee, over(times(p.assets, U256::from_u64(w.s.instant_fee_bps as u64)), U256::from_u64(BPS)), "{ctx}: the fee is not instant_fee_bps of the assets");
                    assert_eq!(w.s.balance_of(&who), minus(bal, shares), "{ctx}: balance after unstake");
                    assert_eq!(w.s.total_shares, minus(before.total_shares, shares), "{ctx}: supply after unstake");
                    assert_eq!(w.s.reserve, minus(before.reserve, p.net), "{ctx}: reserve after unstake");
                    assert_eq!(w.s.fees_accrued, plus(before.fees_accrued, p.fee), "{ctx}: fees after unstake");
                    assert_eq!(w.s.distributable(now), minus(dist, p.assets), "{ctx}: distributable after unstake");
                    let emptied = w.s.total_shares.is_zero();
                    if payout_fails {
                        w.s.revert_unstake(who, shares, &p);
                        pool_hit(w, "unstake+revert");
                        let rate = if emptied { Rate::Revert { old_base: before.base_rate } } else { Rate::Same };
                        done("unstake+revert", false, rate, Vec::new())
                    } else {
                        pool_hit(w, "unstake");
                        w.value_out = plus(w.value_out, p.net);
                        done("unstake", true, if emptied { Rate::Empty } else { Rate::Up }, vec![who.key()])
                    }
                }
                Err(e) => {
                    let justified = match &e {
                        PoolError::Paused => w.s.paused,
                        PoolError::ZeroAmount => shares.is_zero(),
                        PoolError::InsufficientShares => shares.gt(&bal),
                        PoolError::BelowMinimum { min } => *min == u(MIN_PAYOUT) && quote.is_some_and(|q| q.net.lt(&u(MIN_PAYOUT))),
                        PoolError::InsufficientReserve { available } => *available == dist && quote.is_some_and(|q| q.assets.gt(&dist)),
                        _ => false,
                    };
                    assert!(justified, "{ctx}: an unstake refused without cause: {e:?}");
                    refused("unstake/err")
                }
            }
        }
        4 => {
            let amount = if d.next(5) == 0 { U256::one() } else { u(d.magnitude(12, 16)) };
            let locked_before = w.s.locked_rewards(now);
            let end_before = w.s.vest_end_ms;
            let period = w.s.vesting_period_ms;
            let dist = w.s.distributable(now);
            match w.s.fund(amount, now) {
                Ok(()) => {
                    pool_hit(w, "fund");
                    w.value_in = plus(w.value_in, amount);
                    assert_eq!(w.s.reserve, plus(before.reserve, amount), "{ctx}: reserve after fund");
                    assert_eq!(w.s.locked_rewards(now), plus(locked_before, amount), "{ctx}: the funding released something at once");
                    assert_eq!(w.s.distributable(now), dist, "{ctx}: the funding moved what is distributable");
                    assert!(w.s.vest_end_ms > now, "{ctx}: the tranche ends in the past");
                    assert!(w.s.vest_end_ms <= end_before.max(now + period), "{ctx}: the funding pushed the end too far");
                    if locked_before.is_zero() {
                        assert_eq!(w.s.vest_end_ms, now + period, "{ctx}: a fresh tranche did not get a full period");
                    }
                    let left = end_before.saturating_sub(now);
                    if amount == U256::one() && !locked_before.is_zero() && left <= period && locked_before.ge(&U256::from_u64(period - left)) {
                        assert!(w.s.vest_end_ms <= end_before, "{ctx}: dust stretched a running tranche");
                    }
                    done("fund", true, Rate::Same, Vec::new())
                }
                Err(e) => {
                    let justified = match &e {
                        PoolError::Paused => w.s.paused,
                        PoolError::ZeroAmount => amount.is_zero(),
                        _ => false,
                    };
                    assert!(justified, "{ctx}: a funding refused without cause: {e:?}");
                    refused("fund/err")
                }
            }
        }
        5 | 6 => {
            let bal = w.s.balance_of(&who);
            let shares = pct_of(bal, d.next(120));
            let dist = w.s.distributable(now);
            let quote = if shares.le(&w.s.total_shares) { w.s.assets_for(shares, now).ok() } else { None };
            match w.s.request_unbond(who, shares, now) {
                Ok(e) => {
                    pool_hit(w, "request_unbond");
                    assert!(Some(e.assets) == quote && e.shares == shares && e.requested_at == now, "{ctx}: entry {e:?} against quote {quote:?}");
                    assert_eq!(e.claimable_at, now.saturating_add(before.unbond_period_ms), "{ctx}: claimable_at");
                    assert_eq!(e.id, before.next_unbond_id, "{ctx}: unbond ids not sequential");
                    assert!(w.s.unbonds_of(&who).contains(&e), "{ctx}: the entry is not recorded");
                    assert_eq!(w.s.reserve, before.reserve, "{ctx}: an unbond moved the reserve");
                    assert_eq!(w.s.unbonding_total, plus(before.unbonding_total, e.assets), "{ctx}: unbonding_total after unbond");
                    assert_eq!(w.s.distributable(now), minus(dist, e.assets), "{ctx}: distributable after unbond");
                    assert_eq!(w.s.total_shares, minus(before.total_shares, shares), "{ctx}: supply after unbond");
                    done("request_unbond", true, Rate::Unbond { left: minus(before.total_shares, shares) }, vec![who.key()])
                }
                Err(e) => {
                    let justified = match &e {
                        PoolError::Paused => w.s.paused,
                        PoolError::ZeroAmount => shares.is_zero(),
                        PoolError::InsufficientShares => shares.gt(&bal),
                        PoolError::BelowMinimum { min } => *min == u(MIN_PAYOUT) && quote.is_some_and(|q| q.lt(&u(MIN_PAYOUT))),
                        PoolError::InsufficientReserve { available } => *available == dist && quote.is_some_and(|q| q.gt(&dist)),
                        _ => false,
                    };
                    assert!(justified, "{ctx}: an unbond refused without cause: {e:?}");
                    refused("request_unbond/err")
                }
            }
        }
        7 => {
            let holders: Vec<Key> = w.s.unbonds.keys().copied().collect();
            let owner = if holders.is_empty() || d.next(8) == 0 { who } else { let k = holders[d.next(holders.len() as u64) as usize]; ActorId { hi: k.0, lo: k.1 } };
            let list = w.s.unbonds_of(&owner);
            let target = if list.is_empty() { None } else { Some(list[d.next(list.len() as u64) as usize]) };
            let id = target.map(|e| e.id).unwrap_or(1_000 + d.next(100));
            let dist = w.s.distributable(now);
            let payout_fails = d.next(4) == 0;
            match w.s.take_unbond(owner, id, now) {
                Ok(e) => {
                    assert_eq!(Some(e), target, "{ctx}: took a different entry");
                    assert!(now >= e.claimable_at, "{ctx}: claimed before claimable_at");
                    assert!(!w.s.unbonds_of(&owner).iter().any(|x| x.id == id), "{ctx}: the entry is still listed");
                    assert_eq!(w.s.reserve, minus(before.reserve, e.assets), "{ctx}: reserve after claim");
                    assert_eq!(w.s.unbonding_total, minus(before.unbonding_total, e.assets), "{ctx}: unbonding_total after claim");
                    assert_eq!(w.s.distributable(now), dist, "{ctx}: a claim moved what is distributable");
                    if payout_fails {
                        w.s.restore_unbond(owner, e);
                        pool_hit(w, "claim+restore");
                        refused("claim+restore")
                    } else {
                        pool_hit(w, "claim");
                        w.value_out = plus(w.value_out, e.assets);
                        done("claim", true, Rate::Same, Vec::new())
                    }
                }
                Err(e) => {
                    let justified = match &e {
                        PoolError::Paused => w.s.paused,
                        PoolError::UnbondNotFound => target.is_none(),
                        PoolError::UnbondNotReady { claimable_at } => target.is_some_and(|t| t.claimable_at == *claimable_at && now < *claimable_at),
                        _ => false,
                    };
                    assert!(justified, "{ctx}: a claim refused without cause: {e:?}");
                    refused("claim/err")
                }
            }
        }
        8 => {
            let amount = w.s.fees_accrued;
            let dist = w.s.distributable(now);
            let payout_fails = d.next(3) == 0;
            match w.s.begin_collect_fees(a(1), a(7)) {
                Ok(taken) => {
                    assert_eq!(taken, amount, "{ctx}: collected other than the fee bucket");
                    assert!(w.s.fees_accrued.is_zero() && w.s.reserve == minus(before.reserve, amount), "{ctx}: fees not taken out");
                    assert_eq!(w.s.distributable(now), dist, "{ctx}: collecting fees moved what is distributable");
                    if payout_fails {
                        let r = w.s.settle_collect_fees(taken, Err(PoolError::TransferFailed("refused".to_string())));
                        assert!(r.is_err(), "{ctx}: a refused payout answered Ok");
                        pool_hit(w, "collect_fees+revert");
                        refused("collect_fees+revert")
                    } else {
                        assert_eq!(w.s.settle_collect_fees(taken, Ok(())), Ok(taken), "{ctx}: a paid collection answered other than the amount");
                        pool_hit(w, "collect_fees");
                        w.value_out = plus(w.value_out, amount);
                        done("collect_fees", true, Rate::Same, Vec::new())
                    }
                }
                Err(e) => {
                    assert!(e == PoolError::ZeroAmount && amount.is_zero(), "{ctx}: fee collection refused without cause: {e:?}");
                    refused("collect_fees/err")
                }
            }
        }
        9 | 10 => {
            let later = (now + d.next(3 * DAY)).min(T0 + HORIZON);
            let locked_before = w.s.locked_rewards(now);
            w.now = later;
            pool_hit(w, "advance");
            assert!(w.s.locked_rewards(later).le(&locked_before), "{ctx}: locked rewards grew with time");
            done("advance", true, Rate::Up, Vec::new())
        }
        11 => {
            let to = a(1 + d.next(OWNERS));
            let bal = w.s.balance_of(&who);
            let value = pct_of(bal, d.next(120));
            let to_before = w.s.balance_of(&to);
            match w.s.transfer_shares(who, to, value) {
                Ok(()) => {
                    pool_hit(w, "transfer");
                    if who != to {
                        assert_eq!(w.s.balance_of(&who), minus(bal, value), "{ctx}: sender balance");
                        assert_eq!(w.s.balance_of(&to), plus(to_before, value), "{ctx}: receiver balance");
                    } else {
                        assert_eq!(w.s.balance_of(&who), bal, "{ctx}: a self transfer changed the balance");
                    }
                    assert_eq!(w.s.total_shares, before.total_shares, "{ctx}: a transfer changed the supply");
                    done("transfer", true, Rate::Same, vec![who.key(), to.key()])
                }
                Err(e) => {
                    let justified = match &e {
                        PoolError::Paused => w.s.paused,
                        PoolError::ZeroAmount => value.is_zero(),
                        PoolError::InsufficientBalance => value.gt(&bal),
                        _ => false,
                    };
                    assert!(justified, "{ctx}: a transfer refused without cause: {e:?}");
                    refused("transfer/err")
                }
            }
        }
        12 => {
            let key = a(1 + d.next(KEYS));
            let duration = if d.next(10) == 0 { [0, MAX_SESSION_SECS + 1][d.next(2) as usize] } else { 1 + d.next(7 * 86_400) };
            let actions = [vec![P::Unstake, P::Unbond, P::Claim], vec![P::Stake], vec![P::Unbond]][d.next(3) as usize].clone();
            let taken = key_bound_elsewhere(&w.s.session_keys, &w.s.sessions, |x| x.expires_at, key, who, now);
            match w.s.propose_session(who, key, duration, actions.clone(), now) {
                Ok(x) => {
                    pool_hit(w, "propose_session");
                    assert!(key != who && duration >= 1 && duration <= MAX_SESSION_SECS && !taken, "{ctx}: a proposal accepted against the rules");
                    assert_eq!(x, pool::Session { key, expires_at: now + duration * 1000, actions }, "{ctx}: proposal contents");
                    assert_eq!(w.s.pending_sessions.get(&who.key()), Some(&x), "{ctx}: the proposal is not stored");
                    done("propose_session", true, Rate::Same, Vec::new())
                }
                Err(e) => {
                    assert!(e == PoolError::BadSession && (key == who || duration == 0 || duration > MAX_SESSION_SECS || taken), "{ctx}: a proposal refused without cause: {e:?}");
                    refused("propose_session/err")
                }
            }
        }
        13 => {
            let proposals: Vec<(ActorId, ActorId)> = w.s.pending_sessions.iter().map(|(o, x)| (ActorId { hi: o.0, lo: o.1 }, x.key)).collect();
            let (owner, key) = if proposals.is_empty() || d.next(8) == 0 { (who, a(1 + d.next(KEYS))) } else { proposals[d.next(proposals.len() as u64) as usize] };
            let proposal = w.s.pending_sessions.get(&owner.key()).filter(|x| x.key == key).cloned();
            let taken = key_bound_elsewhere(&w.s.session_keys, &w.s.sessions, |x| x.expires_at, key, owner, now);
            let dead = w.s.session_keys.get(&key.key()).copied().filter(|other| *other != owner && !taken);
            match w.s.accept_session(key, owner, now) {
                Ok(x) => {
                    pool_hit(w, "accept_session");
                    assert!(proposal.as_ref() == Some(&x) && now < x.expires_at && !taken, "{ctx}: an acceptance against the rules");
                    assert_eq!(w.s.sessions.get(&owner.key()), Some(&x), "{ctx}: the session is not active");
                    assert_eq!(w.s.session_keys.get(&key.key()), Some(&owner), "{ctx}: the key is not bound");
                    assert!(!w.s.pending_sessions.contains_key(&owner.key()), "{ctx}: the proposal is not consumed");
                    if let Some(other) = dead {
                        assert!(!w.s.sessions.contains_key(&other.key()), "{ctx}: a dead session survived its key's re-binding");
                    }
                    done("accept_session", true, Rate::Same, Vec::new())
                }
                Err(e) => {
                    let justified = match &e {
                        PoolError::BadSession => proposal.is_none() || taken,
                        PoolError::SessionExpired => proposal.as_ref().is_some_and(|x| now >= x.expires_at),
                        _ => false,
                    };
                    assert!(justified, "{ctx}: an acceptance refused without cause: {e:?}");
                    refused("accept_session/err")
                }
            }
        }
        _ => match d.next(3) {
            0 => {
                let had = w.s.sessions.contains_key(&who.key()) || w.s.pending_sessions.contains_key(&who.key());
                assert_eq!(w.s.revoke_session(who), had, "{ctx}: revoke_session's answer");
                assert!(!w.s.sessions.contains_key(&who.key()) && !w.s.pending_sessions.contains_key(&who.key()), "{ctx}: a session survived its revocation");
                if had {
                    pool_hit(w, "revoke_session");
                }
                done("revoke_session", had, Rate::Same, Vec::new())
            }
            1 => {
                let fee = d.next(1_200) as u32;
                let unbond = if d.next(10) == 0 { MAX_UNBOND_SECS + 1 } else { d.next(30 * 86_400) };
                let vesting = d.next(40 * 86_400);
                let valid = fee <= MAX_FEE_BPS && unbond <= MAX_UNBOND_SECS && (MIN_VESTING_SECS..=MAX_VESTING_SECS).contains(&vesting);
                match w.s.set_config(fee, unbond, vesting) {
                    Ok(()) => {
                        pool_hit(w, "set_config");
                        assert!(valid, "{ctx}: an invalid config accepted");
                        assert_eq!((w.s.instant_fee_bps, w.s.unbond_period_ms, w.s.vesting_period_ms), (fee, unbond * 1000, vesting * 1000), "{ctx}: the config is not applied");
                        done("set_config", true, Rate::Same, Vec::new())
                    }
                    Err(e) => {
                        assert!(e == PoolError::BadConfig && !valid, "{ctx}: a config refused without cause: {e:?}");
                        refused("set_config/err")
                    }
                }
            }
            _ => {
                let paused = d.next(3) == 0;
                let changed = w.s.paused != paused;
                w.s.paused = paused;
                if changed {
                    pool_hit(w, "pause/resume");
                }
                done("pause/resume", changed, Rate::Same, Vec::new())
            }
        },
    }
}

fn run_pool(seed: u64) -> BTreeMap<&'static str, u32> {
    let mut d = Dice(seed);
    let fee = d.next(1_200) as u32;
    let unbond = d.next(400 * 86_400);
    let vesting = d.next(400 * 86_400);
    let initial = if d.next(2) == 0 { 0 } else { d.magnitude(17, 19) };
    let s = PoolState::new(a(1), "Vale kVARA".to_string(), "kVARA".to_string(), 12, fee, unbond, vesting, u(initial));
    assert_eq!(s.instant_fee_bps, fee.min(MAX_FEE_BPS), "the constructor did not clamp the fee");
    assert_eq!(s.unbond_period_ms, unbond.min(MAX_UNBOND_SECS) * 1000, "the constructor did not clamp the unbond period");
    assert_eq!(s.vesting_period_ms, vesting.clamp(MIN_VESTING_SECS, MAX_VESTING_SECS) * 1000, "the constructor did not clamp the vesting period");
    assert_eq!(s.base_rate, u(initial).max(scale()), "the constructor did not clamp the initial rate");
    let mut w = PoolWorld { s, now: T0, value_in: U256::zero(), value_out: U256::zero(), hits: BTreeMap::new() };
    pool_invariants(&w, "initial");
    for i in 0..STEPS {
        let ctx = format!("pool seed {seed} step {i} at t+{}ms", w.now - T0);
        let before = pool_snap(&w.s);
        let rate_before = w.s.rate_at(w.now);
        let claims_before = pool_claims(&w.s, w.now);
        let step = pool_step(&mut w, &mut d, &before, &ctx);
        let ctx = format!("{ctx} [{}]", step.label);
        let now = w.now;
        let rate_after = w.s.rate_at(now);

        if !step.changed {
            let after = pool_snap(&w.s);
            let mut expect = before.clone();
            if after.base_rate != before.base_rate {
                assert!(step.label == "unstake+revert" && after.base_rate == rate_before, "{ctx}: the base rate moved");
                expect.base_rate = after.base_rate;
            }
            assert!(after == expect, "{ctx}: the state changed although it should not have\n before: {before:#?}\n after: {after:#?}");
        }

        match step.rate {
            Rate::Same => assert_eq!(rate_after, rate_before, "{ctx}: the rate moved"),
            Rate::Up => assert!(rate_after.ge(&rate_before), "{ctx}: the rate fell"),
            Rate::Empty => {
                assert!(rate_after.ge(&rate_before), "{ctx}: emptying the pool lowered the rate");
                assert!(minus(rate_after, rate_before).le(&empty_tick()), "{ctx}: emptying the pool moved the rate too far");
            }
            Rate::Revert { old_base } => {
                assert!(rate_after.ge(&rate_before), "{ctx}: the revert lowered the rate");
                let vs = pool::virtual_shares();
                let nudge = plus(over(plus(times(vs, minus(rate_before, old_base)), scale()), plus(w.s.total_shares, vs)), u(2));
                assert!(minus(rate_after, rate_before).le(&nudge), "{ctx}: the revert's base rate refresh moved the rate too far");
            }
            Rate::Unbond { left } => {
                assert!(rate_after.ge(&rate_before), "{ctx}: the unbond lowered the rate");
                let tick = if left.is_zero() { empty_tick() } else { plus(over(scale(), plus(left, pool::virtual_shares())), U256::one()) };
                assert!(minus(rate_after, rate_before).le(&tick), "{ctx}: the unbond moved the rate by more than one rounding tick");
            }
        }

        for (k, claim) in &claims_before {
            if step.actors.contains(k) {
                continue;
            }
            let bal = w.s.balances.get(k).copied().unwrap_or(U256::zero());
            let after = w.s.assets_for(bal, now).unwrap();
            assert!(after.ge(claim), "{ctx}: a bystander was diluted");
        }

        pool_invariants(&w, &ctx);
        let probe = d.magnitude(12, 18);
        if let Some(label) = pool_probes(&w, probe, &ctx) {
            pool_hit(&mut w, label);
        }
    }
    w.hits
}

// --- the vault --------------------------------------------------------------------------------

#[derive(Debug, Clone, PartialEq)]
struct VaultSnap {
    admin: ActorId,
    underlying: ActorId,
    name: String,
    symbol: String,
    decimals: u8,
    total_shares: U256,
    balances: BTreeMap<Key, U256>,
    allowances: BTreeMap<(Key, Key), U256>,
    base_rate: U256,
    instant_fee_bps: u32,
    unbond_period_ms: u64,
    vesting_period_ms: u64,
    holdings: U256,
    fees_accrued: U256,
    unbonding_total: U256,
    vest_amount: U256,
    vest_start_ms: u64,
    vest_end_ms: u64,
    paused: bool,
    unbonds: BTreeMap<Key, Vec<Unbond>>,
    next_unbond_id: u64,
    sessions: BTreeMap<Key, vault::Session>,
    session_keys: BTreeMap<Key, ActorId>,
    pending_sessions: BTreeMap<Key, vault::Session>,
}

fn vault_snap(s: &VaultState) -> VaultSnap {
    VaultSnap {
        admin: s.admin,
        underlying: s.underlying,
        name: s.name.clone(),
        symbol: s.symbol.clone(),
        decimals: s.decimals,
        total_shares: s.total_shares,
        balances: s.balances.clone(),
        allowances: s.allowances.clone(),
        base_rate: s.base_rate,
        instant_fee_bps: s.instant_fee_bps,
        unbond_period_ms: s.unbond_period_ms,
        vesting_period_ms: s.vesting_period_ms,
        holdings: s.holdings,
        fees_accrued: s.fees_accrued,
        unbonding_total: s.unbonding_total,
        vest_amount: s.vest_amount,
        vest_start_ms: s.vest_start_ms,
        vest_end_ms: s.vest_end_ms,
        paused: s.paused,
        unbonds: s.unbonds.clone(),
        next_unbond_id: s.next_unbond_id,
        sessions: s.sessions.clone(),
        session_keys: s.session_keys.clone(),
        pending_sessions: s.pending_sessions.clone(),
    }
}

fn vault_from(sn: &VaultSnap) -> VaultState {
    VaultState {
        admin: sn.admin,
        underlying: sn.underlying,
        name: sn.name.clone(),
        symbol: sn.symbol.clone(),
        decimals: sn.decimals,
        total_shares: sn.total_shares,
        balances: sn.balances.clone(),
        allowances: sn.allowances.clone(),
        base_rate: sn.base_rate,
        instant_fee_bps: sn.instant_fee_bps,
        unbond_period_ms: sn.unbond_period_ms,
        vesting_period_ms: sn.vesting_period_ms,
        holdings: sn.holdings,
        fees_accrued: sn.fees_accrued,
        unbonding_total: sn.unbonding_total,
        vest_amount: sn.vest_amount,
        vest_start_ms: sn.vest_start_ms,
        vest_end_ms: sn.vest_end_ms,
        paused: sn.paused,
        unbonds: sn.unbonds.clone(),
        next_unbond_id: sn.next_unbond_id,
        sessions: sn.sessions.clone(),
        session_keys: sn.session_keys.clone(),
        pending_sessions: sn.pending_sessions.clone(),
    }
}

struct VaultWorld {
    s: VaultState,
    now: u64,
    value_in: U256,
    value_out: U256,
    hits: BTreeMap<&'static str, u32>,
}

fn vault_claims(s: &VaultState, now: u64) -> BTreeMap<Key, U256> {
    s.balances.iter().map(|(k, b)| (*k, s.assets_for(*b, now).unwrap_or(U256::max_value()))).collect()
}

fn vault_sessions_hold(s: &VaultState, now: u64, ctx: &str) {
    assert_eq!(s.sessions.len(), s.session_keys.len(), "{ctx}: sessions and session_keys differ in size");
    for (owner, x) in &s.sessions {
        assert!(!x.key.is_zero() && x.key.key() != *owner && !x.actions.is_empty(), "{ctx}: malformed session {x:?}");
        assert_eq!(s.session_keys.get(&x.key.key()).map(|o| o.key()), Some(*owner), "{ctx}: a session key does not map back");
    }
    for (key, owner) in &s.session_keys {
        assert_eq!(s.sessions.get(&owner.key()).map(|x| x.key.key()), Some(*key), "{ctx}: a bound key has no matching session");
    }
    for (owner, x) in &s.pending_sessions {
        assert!(!x.key.is_zero() && x.key.key() != *owner && !x.actions.is_empty(), "{ctx}: malformed proposal {x:?}");
    }
    for id in 1..=KEYS {
        let sender = a(id);
        // A key bound to an owner acts only for that owner: once the session expired it is
        // refused until it is revoked or re-bound.
        let bound = s.session_keys.get(&sender.key()).map(|o| (*o, s.sessions.get(&o.key())));
        for act in [V::Deposit, V::Redeem, V::Unbond, V::Claim] {
            let expect = match bound {
                None => Ok(sender),
                Some((_, None)) => Err(VaultError::SessionExpired),
                Some((_, Some(x))) if now >= x.expires_at => Err(VaultError::SessionExpired),
                Some((owner, Some(x))) if x.actions.contains(&act) => Ok(owner),
                Some(_) => Err(VaultError::SessionNotAllowed),
            };
            assert_eq!(s.actor_for(sender, act, now), expect, "{ctx}: routing of {sender:?} for {act:?}");
        }
    }
}

fn vault_invariants(w: &VaultWorld, ctx: &str) {
    let s = &w.s;
    let now = w.now;
    let locked = s.locked_rewards(now);
    let owed = plus(plus(s.fees_accrued, s.unbonding_total), locked);
    assert!(s.holdings.ge(&owed), "{ctx}: insolvent");
    assert!(s.distributable(now).le(&s.holdings), "{ctx}: distributable exceeds the holdings");
    assert_eq!(s.holdings, minus(w.value_in, w.value_out), "{ctx}: the holdings are not what came in minus what left");

    let sum = s.balances.values().fold(U256::zero(), |acc, b| plus(acc, *b));
    assert_eq!(s.total_shares, sum, "{ctx}: total_shares is not the sum of the balances");
    assert!(s.balances.values().all(|b| !b.is_zero()), "{ctx}: a zero balance is stored");

    let mut ids = BTreeSet::new();
    let mut unbonding = U256::zero();
    for list in s.unbonds.values() {
        assert!(!list.is_empty(), "{ctx}: an empty unbond list is kept");
        for pair in list.windows(2) {
            assert!(pair[0].id < pair[1].id, "{ctx}: unbonds not ascending");
        }
        for e in list {
            assert!(e.id < s.next_unbond_id && ids.insert(e.id), "{ctx}: unbond id {} repeated or beyond the next id", e.id);
            assert!(e.claimable_at >= e.requested_at && !e.assets.is_zero() && !e.shares.is_zero(), "{ctx}: malformed unbond {e:?}");
            unbonding = plus(unbonding, e.assets);
        }
    }
    assert_eq!(s.unbonding_total, unbonding, "{ctx}: unbonding_total is not the sum of the entries");

    let d = s.distributable(now);
    if !s.total_shares.is_zero() {
        assert!(!d.is_zero(), "{ctx}: shares are outstanding but nothing is distributable");
        let promised = vault_claims(s, now).values().fold(U256::zero(), |acc, c| acc.saturating_add(*c));
        assert!(promised.le(&d), "{ctx}: holders are promised {promised:?} but only {d:?} is distributable");
    }
    assert!(s.rate_at(now).ge(&s.base_rate), "{ctx}: the rate fell below the base rate");
    assert!(s.base_rate.ge(&scale()), "{ctx}: the base rate is below 1.0");

    assert!(locked.le(&s.vest_amount), "{ctx}: more is locked than the tranche");
    assert!(s.vest_end_ms >= s.vest_start_ms, "{ctx}: the vesting window is inverted");
    assert!(s.locked_rewards(s.vest_end_ms).is_zero() && s.locked_rewards(s.vest_end_ms + 1).is_zero(), "{ctx}: rewards still locked at the end");
    let mut prev = locked;
    for delta in [1u64, 1_000, DAY, 30 * DAY, HORIZON] {
        let later = s.locked_rewards(now + delta);
        assert!(later.le(&prev), "{ctx}: locked rewards rose after +{delta}ms");
        prev = later;
    }
    vault_sessions_hold(s, now, ctx);
}

/// The round trips, on a copy of the state.
fn vault_probes(w: &VaultWorld, probe: u128, ctx: &str) -> Option<&'static str> {
    let s = &w.s;
    let now = w.now;
    let amount = u(probe);
    let sh = s.shares_for(amount, now).expect("shares_for overflow");
    assert!(s.assets_for(sh, now).unwrap().le(&amount), "{ctx}: assets_for(shares_for(A)) > A");
    for bal in s.balances.values() {
        let back = s.shares_for(s.assets_for(*bal, now).unwrap(), now).unwrap();
        assert!(back.le(bal), "{ctx}: shares_for(assets_for(b)) > b");
    }
    if s.paused {
        return None;
    }
    let who = a(OWNERS + 1);
    let d_before = s.distributable(now);
    let rate_before = s.rate_at(now);
    let shares_before = s.total_shares;
    let mut c = vault_from(&vault_snap(s));
    match c.check_deposit(amount, now) {
        Ok(q) => assert_eq!(q, sh, "{ctx}: the deposit check quoted other than shares_for"),
        Err(_) => return Some("probe: deposit refused"),
    }
    let minted = c.settle_deposit(who, amount, now).expect("a checked deposit must settle");
    assert_eq!(minted, sh, "{ctx}: the probe deposit minted other than quoted");
    let out = match c.begin_redeem(who, minted, now) {
        Ok(out) => out,
        Err(VaultError::ZeroAmount) => return Some("probe: redeem of a dust deposit pays nothing"),
        Err(e) => panic!("{ctx}: a fresh deposit cannot be redeemed: {e:?}"),
    };
    assert!(out.assets.le(&amount), "{ctx}: the round trip returned more than it brought");
    assert!(plus(out.net, out.fee) == out.assets && out.fee.le(&over(out.assets, u(10))), "{ctx}: fee split wrong: {out:?}");
    if !shares_before.is_zero() {
        assert!(c.distributable(now).ge(&d_before), "{ctx}: the round trip lowered what is distributable");
    }
    assert!(c.rate_at(now).ge(&rate_before), "{ctx}: the round trip lowered the rate");
    assert_eq!(c.total_shares, shares_before, "{ctx}: the round trip changed the supply");
    assert!(c.balance_of(&who).is_zero(), "{ctx}: the visitor kept shares");
    None
}

fn vault_hit(w: &mut VaultWorld, label: &'static str) {
    *w.hits.entry(label).or_default() += 1;
}

fn vault_step(w: &mut VaultWorld, d: &mut Dice, before: &VaultSnap, ctx: &str) -> Done {
    let now = w.now;
    let who = a(1 + d.next(OWNERS));
    match d.next(15) {
        0 | 1 => {
            let amount = if d.next(10) == 0 { u(d.next(MIN_DEPOSIT) as u128) } else { u(d.magnitude(3, 15)) };
            let quote = w.s.shares_for(amount, now).unwrap();
            match w.s.check_deposit(amount, now) {
                Ok(q) => {
                    assert_eq!(q, quote, "{ctx}: the deposit check quoted other than shares_for");
                    assert_eq!(vault_snap(&w.s), *before, "{ctx}: the deposit check changed the state");
                    let bal = w.s.balance_of(&who);
                    let shares = w.s.settle_deposit(who, amount, now).expect("a checked deposit must settle");
                    vault_hit(w, "settle_deposit");
                    w.value_in = plus(w.value_in, amount);
                    assert!(!shares.is_zero() && shares == quote, "{ctx}: minted other than quoted");
                    assert_eq!(w.s.balance_of(&who), plus(bal, shares), "{ctx}: balance after deposit");
                    assert_eq!(w.s.total_shares, plus(before.total_shares, shares), "{ctx}: supply after deposit");
                    assert_eq!(w.s.holdings, plus(before.holdings, amount), "{ctx}: holdings after deposit");
                    if !before.total_shares.is_zero() {
                        assert_eq!(w.s.fees_accrued, before.fees_accrued, "{ctx}: a deposit into a live vault touched the fees");
                    }
                    done("settle_deposit", true, Rate::Up, vec![who.key()])
                }
                Err(e) => {
                    vault_hit(w, "check_deposit/err");
                    let justified = match &e {
                        VaultError::Paused => w.s.paused,
                        VaultError::ZeroAmount => amount.is_zero(),
                        VaultError::BelowMinimum { min } => *min == U256::from_u64(MIN_DEPOSIT) && (amount.lt(min) || quote.is_zero()),
                        _ => false,
                    };
                    assert!(justified, "{ctx}: a deposit refused without cause: {e:?}");
                    refused("check_deposit/err")
                }
            }
        }
        2 | 3 => {
            let bal = w.s.balance_of(&who);
            let shares = pct_of(bal, d.next(120));
            let dist = w.s.distributable(now);
            let quote: Option<RedeemPreview> = if shares.le(&w.s.total_shares) { w.s.preview_redeem(shares, now).ok() } else { None };
            let payout_fails = d.next(4) == 0;
            match w.s.begin_redeem(who, shares, now) {
                Ok(p) => {
                    assert_eq!(Some(p), quote, "{ctx}: the redeem paid other than the preview");
                    assert!(p.assets.le(&dist), "{ctx}: the redeem paid more than is distributable");
                    assert!(plus(p.net, p.fee) == p.assets && !p.net.is_zero(), "{ctx}: bad split {p:?}");
                    assert_eq!(p.fee, over(times(p.assets, U256::from_u64(w.s.instant_fee_bps as u64)), U256::from_u64(vault::BPS)), "{ctx}: the fee is not instant_fee_bps of the assets");
                    assert_eq!(w.s.balance_of(&who), minus(bal, shares), "{ctx}: balance after redeem");
                    assert_eq!(w.s.total_shares, minus(before.total_shares, shares), "{ctx}: supply after redeem");
                    assert_eq!(w.s.holdings, minus(before.holdings, p.net), "{ctx}: holdings after redeem");
                    assert_eq!(w.s.fees_accrued, plus(before.fees_accrued, p.fee), "{ctx}: fees after redeem");
                    assert_eq!(w.s.distributable(now), minus(dist, p.assets), "{ctx}: distributable after redeem");
                    if payout_fails {
                        w.s.revert_redeem(who, shares, &p);
                        vault_hit(w, "revert_redeem");
                        refused("revert_redeem")
                    } else {
                        vault_hit(w, "redeem paid");
                        w.value_out = plus(w.value_out, p.net);
                        let emptied = w.s.total_shares.is_zero();
                        done("redeem paid", true, if emptied { Rate::Same } else { Rate::Up }, vec![who.key()])
                    }
                }
                Err(e) => {
                    let justified = match &e {
                        VaultError::Paused => w.s.paused,
                        VaultError::ZeroAmount => shares.is_zero() || quote.is_some_and(|q| q.net.is_zero()),
                        VaultError::InsufficientShares => shares.gt(&bal),
                        VaultError::InsufficientReserve { available } => *available == dist && quote.is_some_and(|q| q.assets.gt(&dist)),
                        _ => false,
                    };
                    assert!(justified, "{ctx}: a redeem refused without cause: {e:?}");
                    refused("begin_redeem/err")
                }
            }
        }
        4 => {
            let amount = if d.next(5) == 0 { U256::one() } else { u(d.magnitude(3, 14)) };
            let locked_before = w.s.locked_rewards(now);
            let end_before = w.s.vest_end_ms;
            let period = w.s.vesting_period_ms;
            let dist = w.s.distributable(now);
            match w.s.fund(amount, now) {
                Ok(()) => {
                    vault_hit(w, "fund");
                    w.value_in = plus(w.value_in, amount);
                    assert_eq!(w.s.holdings, plus(before.holdings, amount), "{ctx}: holdings after fund");
                    assert_eq!(w.s.locked_rewards(now), plus(locked_before, amount), "{ctx}: the funding released something at once");
                    assert_eq!(w.s.distributable(now), dist, "{ctx}: the funding moved what is distributable");
                    assert!(w.s.vest_end_ms > now, "{ctx}: the tranche ends in the past");
                    assert!(w.s.vest_end_ms <= end_before.max(now + period), "{ctx}: the funding pushed the end too far");
                    if locked_before.is_zero() {
                        assert_eq!(w.s.vest_end_ms, now + period, "{ctx}: a fresh tranche did not get a full period");
                    }
                    let left = end_before.saturating_sub(now);
                    if amount == U256::one() && !locked_before.is_zero() && left <= period && locked_before.ge(&U256::from_u64(period - left)) {
                        assert!(w.s.vest_end_ms <= end_before, "{ctx}: dust stretched a running tranche");
                    }
                    done("fund", true, Rate::Same, Vec::new())
                }
                Err(e) => {
                    assert!(e == VaultError::ZeroAmount && amount.is_zero(), "{ctx}: a funding refused without cause: {e:?}");
                    refused("fund/err")
                }
            }
        }
        5 | 6 => {
            let bal = w.s.balance_of(&who);
            let shares = pct_of(bal, d.next(120));
            let dist = w.s.distributable(now);
            let quote = if shares.le(&w.s.total_shares) { w.s.assets_for(shares, now).ok() } else { None };
            match w.s.request_unbond(who, shares, now) {
                Ok(e) => {
                    vault_hit(w, "request_unbond");
                    assert!(Some(e.assets) == quote && e.shares == shares && e.requested_at == now, "{ctx}: entry {e:?} against quote {quote:?}");
                    assert_eq!(e.claimable_at, now.saturating_add(before.unbond_period_ms), "{ctx}: claimable_at");
                    assert_eq!(e.id, before.next_unbond_id, "{ctx}: unbond ids not sequential");
                    assert!(w.s.unbonds_of(&who).contains(&e), "{ctx}: the entry is not recorded");
                    assert_eq!(w.s.holdings, before.holdings, "{ctx}: an unbond moved the holdings");
                    assert_eq!(w.s.unbonding_total, plus(before.unbonding_total, e.assets), "{ctx}: unbonding_total after unbond");
                    assert_eq!(w.s.distributable(now), minus(dist, e.assets), "{ctx}: distributable after unbond");
                    assert_eq!(w.s.total_shares, minus(before.total_shares, shares), "{ctx}: supply after unbond");
                    let left = minus(before.total_shares, shares);
                    let rate = if left.is_zero() { Rate::Same } else { Rate::Unbond { left } };
                    done("request_unbond", true, rate, vec![who.key()])
                }
                Err(e) => {
                    let justified = match &e {
                        VaultError::Paused => w.s.paused,
                        VaultError::ZeroAmount => shares.is_zero() || quote.is_some_and(|q| q.is_zero()),
                        VaultError::InsufficientShares => shares.gt(&bal),
                        VaultError::InsufficientReserve { available } => *available == dist && quote.is_some_and(|q| q.gt(&dist)),
                        _ => false,
                    };
                    assert!(justified, "{ctx}: an unbond refused without cause: {e:?}");
                    refused("request_unbond/err")
                }
            }
        }
        7 => {
            let holders: Vec<Key> = w.s.unbonds.keys().copied().collect();
            let owner = if holders.is_empty() || d.next(8) == 0 { who } else { let k = holders[d.next(holders.len() as u64) as usize]; ActorId { hi: k.0, lo: k.1 } };
            let list = w.s.unbonds_of(&owner);
            let target = if list.is_empty() { None } else { Some(list[d.next(list.len() as u64) as usize]) };
            let id = target.map(|e| e.id).unwrap_or(1_000 + d.next(100));
            let dist = w.s.distributable(now);
            let payout_fails = d.next(4) == 0;
            match w.s.take_unbond(owner, id, now) {
                Ok(e) => {
                    assert_eq!(Some(e), target, "{ctx}: took a different entry");
                    assert!(now >= e.claimable_at, "{ctx}: claimed before claimable_at");
                    assert!(!w.s.unbonds_of(&owner).iter().any(|x| x.id == id), "{ctx}: the entry is still listed");
                    assert_eq!(w.s.holdings, minus(before.holdings, e.assets), "{ctx}: holdings after claim");
                    assert_eq!(w.s.unbonding_total, minus(before.unbonding_total, e.assets), "{ctx}: unbonding_total after claim");
                    assert_eq!(w.s.distributable(now), dist, "{ctx}: a claim moved what is distributable");
                    if payout_fails {
                        w.s.restore_unbond(owner, e);
                        vault_hit(w, "restore_unbond");
                        refused("restore_unbond")
                    } else {
                        vault_hit(w, "claim paid");
                        w.value_out = plus(w.value_out, e.assets);
                        done("claim paid", true, Rate::Same, Vec::new())
                    }
                }
                Err(e) => {
                    let justified = match &e {
                        VaultError::Paused => w.s.paused,
                        VaultError::UnbondNotFound => target.is_none(),
                        VaultError::UnbondNotReady { claimable_at } => target.is_some_and(|t| t.claimable_at == *claimable_at && now < *claimable_at),
                        _ => false,
                    };
                    assert!(justified, "{ctx}: a claim refused without cause: {e:?}");
                    refused("take_unbond/err")
                }
            }
        }
        8 => {
            let amount = w.s.fees_accrued;
            let dist = w.s.distributable(now);
            let payout_fails = d.next(3) == 0;
            match w.s.take_fees() {
                Ok(taken) => {
                    assert_eq!(taken, amount, "{ctx}: took other than the fee bucket");
                    assert!(w.s.fees_accrued.is_zero() && w.s.holdings == minus(before.holdings, amount), "{ctx}: fees not taken out");
                    assert_eq!(w.s.distributable(now), dist, "{ctx}: taking the fees moved what is distributable");
                    if payout_fails {
                        w.s.restore_fees(taken);
                        vault_hit(w, "restore_fees");
                        refused("restore_fees")
                    } else {
                        vault_hit(w, "fees paid");
                        w.value_out = plus(w.value_out, amount);
                        done("fees paid", true, Rate::Same, Vec::new())
                    }
                }
                Err(e) => {
                    assert!(e == VaultError::ZeroAmount && amount.is_zero(), "{ctx}: fee collection refused without cause: {e:?}");
                    refused("take_fees/err")
                }
            }
        }
        9 | 10 => {
            let later = (now + d.next(3 * DAY)).min(T0 + HORIZON);
            let locked_before = w.s.locked_rewards(now);
            w.now = later;
            vault_hit(w, "advance");
            assert!(w.s.locked_rewards(later).le(&locked_before), "{ctx}: locked rewards grew with time");
            done("advance", true, Rate::Up, Vec::new())
        }
        11 => {
            let to = a(1 + d.next(OWNERS));
            let bal = w.s.balance_of(&who);
            let value = pct_of(bal, d.next(120));
            let to_before = w.s.balance_of(&to);
            match w.s.transfer_shares(who, to, value) {
                Ok(()) => {
                    vault_hit(w, "transfer");
                    if who != to {
                        assert_eq!(w.s.balance_of(&who), minus(bal, value), "{ctx}: sender balance");
                        assert_eq!(w.s.balance_of(&to), plus(to_before, value), "{ctx}: receiver balance");
                    } else {
                        assert_eq!(w.s.balance_of(&who), bal, "{ctx}: a self transfer changed the balance");
                    }
                    assert_eq!(w.s.total_shares, before.total_shares, "{ctx}: a transfer changed the supply");
                    done("transfer", true, Rate::Same, vec![who.key(), to.key()])
                }
                Err(e) => {
                    let justified = match &e {
                        VaultError::Paused => w.s.paused,
                        VaultError::ZeroAmount => value.is_zero(),
                        VaultError::InsufficientBalance => value.gt(&bal),
                        _ => false,
                    };
                    assert!(justified, "{ctx}: a transfer refused without cause: {e:?}");
                    refused("transfer/err")
                }
            }
        }
        12 => {
            let key = a(1 + d.next(KEYS));
            let duration = if d.next(10) == 0 { [0, vault::MAX_SESSION_SECS + 1][d.next(2) as usize] } else { 1 + d.next(7 * 86_400) };
            let actions = [vec![V::Deposit, V::Redeem, V::Unbond, V::Claim], vec![V::Redeem], vec![V::Claim]][d.next(3) as usize].clone();
            let taken = w.s.session_keys.get(&key.key()).is_some_and(|other| *other != who);
            match w.s.propose_session(who, key, duration, actions.clone(), now) {
                Ok(x) => {
                    vault_hit(w, "propose_session");
                    assert!(key != who && duration >= 1 && duration <= vault::MAX_SESSION_SECS && !taken, "{ctx}: a proposal accepted against the rules");
                    assert_eq!(x, vault::Session { key, expires_at: now + duration * 1000, actions }, "{ctx}: proposal contents");
                    assert_eq!(w.s.pending_sessions.get(&who.key()), Some(&x), "{ctx}: the proposal is not stored");
                    done("propose_session", true, Rate::Same, Vec::new())
                }
                Err(e) => {
                    assert!(e == VaultError::BadSession && (key == who || duration == 0 || duration > vault::MAX_SESSION_SECS || taken), "{ctx}: a proposal refused without cause: {e:?}");
                    refused("propose_session/err")
                }
            }
        }
        13 => {
            let proposals: Vec<(ActorId, ActorId)> = w.s.pending_sessions.iter().map(|(o, x)| (ActorId { hi: o.0, lo: o.1 }, x.key)).collect();
            let (owner, key) = if proposals.is_empty() || d.next(8) == 0 { (who, a(1 + d.next(KEYS))) } else { proposals[d.next(proposals.len() as u64) as usize] };
            let proposal = w.s.pending_sessions.get(&owner.key()).filter(|x| x.key == key).cloned();
            let taken = w.s.session_keys.get(&key.key()).is_some_and(|other| *other != owner);
            match w.s.accept_session(key, owner, now) {
                Ok(x) => {
                    vault_hit(w, "accept_session");
                    assert!(proposal.as_ref() == Some(&x) && now < x.expires_at && !taken, "{ctx}: an acceptance against the rules");
                    assert_eq!(w.s.sessions.get(&owner.key()), Some(&x), "{ctx}: the session is not active");
                    assert_eq!(w.s.session_keys.get(&key.key()), Some(&owner), "{ctx}: the key is not bound");
                    assert!(!w.s.pending_sessions.contains_key(&owner.key()), "{ctx}: the proposal is not consumed");
                    done("accept_session", true, Rate::Same, Vec::new())
                }
                Err(e) => {
                    let justified = match &e {
                        VaultError::BadSession => proposal.is_none() || taken,
                        VaultError::SessionExpired => proposal.as_ref().is_some_and(|x| now >= x.expires_at),
                        _ => false,
                    };
                    assert!(justified, "{ctx}: an acceptance refused without cause: {e:?}");
                    refused("accept_session/err")
                }
            }
        }
        _ => match d.next(3) {
            0 => {
                let had = w.s.sessions.contains_key(&who.key()) || w.s.pending_sessions.contains_key(&who.key());
                assert_eq!(w.s.revoke_session(who), had, "{ctx}: revoke_session's answer");
                assert!(!w.s.sessions.contains_key(&who.key()) && !w.s.pending_sessions.contains_key(&who.key()), "{ctx}: a session survived its revocation");
                if had {
                    vault_hit(w, "revoke_session");
                }
                done("revoke_session", had, Rate::Same, Vec::new())
            }
            1 => {
                let fee = d.next(1_200) as u32;
                let unbond = if d.next(10) == 0 { vault::MAX_UNBOND_SECS + 1 } else { d.next(30 * 86_400) };
                let vesting = d.next(40 * 86_400);
                let valid = fee <= vault::MAX_FEE_BPS && unbond <= vault::MAX_UNBOND_SECS && (vault::MIN_VESTING_SECS..=vault::MAX_VESTING_SECS).contains(&vesting);
                match w.s.set_config(fee, unbond, vesting) {
                    Ok(()) => {
                        vault_hit(w, "set_config");
                        assert!(valid, "{ctx}: an invalid config accepted");
                        assert_eq!((w.s.instant_fee_bps, w.s.unbond_period_ms, w.s.vesting_period_ms), (fee, unbond * 1000, vesting * 1000), "{ctx}: the config is not applied");
                        done("set_config", true, Rate::Same, Vec::new())
                    }
                    Err(e) => {
                        assert!(e == VaultError::BadConfig && !valid, "{ctx}: a config refused without cause: {e:?}");
                        refused("set_config/err")
                    }
                }
            }
            _ => {
                let paused = d.next(3) == 0;
                let changed = w.s.paused != paused;
                w.s.paused = paused;
                if changed {
                    vault_hit(w, "pause/resume");
                }
                done("pause/resume", changed, Rate::Same, Vec::new())
            }
        },
    }
}

fn run_vault(seed: u64) -> BTreeMap<&'static str, u32> {
    let mut d = Dice(seed ^ 0x9e37_79b9_7f4a_7c15);
    let fee = d.next(1_200) as u32;
    let unbond = if d.next(4) == 0 { d.next(400 * 86_400) } else { d.next(3 * 86_400) };
    let vesting = d.next(400 * 86_400);
    let initial = if d.next(2) == 0 { 0 } else { d.magnitude(17, 19) };
    let s = VaultState::new(a(1), a(99), "Vale kUSDC".to_string(), "kUSDC".to_string(), 6, fee, unbond, vesting, u(initial));
    assert_eq!(s.instant_fee_bps, fee.min(vault::MAX_FEE_BPS), "the constructor did not clamp the fee");
    assert_eq!(s.unbond_period_ms, unbond.min(vault::MAX_UNBOND_SECS) * 1000, "the constructor did not clamp the unbond period");
    assert_eq!(s.vesting_period_ms, vesting.clamp(vault::MIN_VESTING_SECS, vault::MAX_VESTING_SECS) * 1000, "the constructor did not clamp the vesting period");
    assert_eq!(s.base_rate, u(initial).max(scale()), "the constructor did not clamp the initial rate");
    let mut w = VaultWorld { s, now: T0, value_in: U256::zero(), value_out: U256::zero(), hits: BTreeMap::new() };
    vault_invariants(&w, "initial");
    for i in 0..STEPS {
        let ctx = format!("vault seed {seed} step {i} at t+{}ms", w.now - T0);
        let before = vault_snap(&w.s);
        let rate_before = w.s.rate_at(w.now);
        let claims_before = vault_claims(&w.s, w.now);
        let step = vault_step(&mut w, &mut d, &before, &ctx);
        let ctx = format!("{ctx} [{}]", step.label);
        let now = w.now;
        let rate_after = w.s.rate_at(now);

        if !step.changed {
            let after = vault_snap(&w.s);
            let mut expect = before.clone();
            if after.base_rate != before.base_rate {
                assert!(step.label == "revert_redeem" && after.base_rate == rate_before, "{ctx}: the base rate moved");
                expect.base_rate = after.base_rate;
            }
            assert!(after == expect, "{ctx}: the state changed although it should not have\n before: {before:#?}\n after: {after:#?}");
        }

        match step.rate {
            Rate::Same => assert_eq!(rate_after, rate_before, "{ctx}: the rate moved"),
            Rate::Up => assert!(rate_after.ge(&rate_before), "{ctx}: the rate fell"),
            Rate::Unbond { left } => {
                assert!(rate_after.ge(&rate_before), "{ctx}: the unbond lowered the rate");
                let tick = plus(over(scale(), left), U256::one());
                assert!(minus(rate_after, rate_before).le(&tick), "{ctx}: the unbond moved the rate by more than one rounding tick");
            }
            Rate::Empty | Rate::Revert { .. } => unreachable!("{ctx}: the vault has no virtual shares"),
        }

        for (k, claim) in &claims_before {
            if step.actors.contains(k) {
                continue;
            }
            let bal = w.s.balances.get(k).copied().unwrap_or(U256::zero());
            let after = w.s.assets_for(bal, now).unwrap();
            assert!(after.ge(claim), "{ctx}: a bystander was diluted");
        }

        vault_invariants(&w, &ctx);
        let probe = d.magnitude(3, 15);
        if let Some(label) = vault_probes(&w, probe, &ctx) {
            vault_hit(&mut w, label);
        }
    }
    w.hits
}

/// Over a fixed batch of sequences every operation, and every revert path, must succeed at
/// least once, each checked as above.
#[test]
fn properties_every_operation_is_exercised() {
    let mut pool_hits = BTreeMap::<&'static str, u32>::new();
    let mut vault_hits = BTreeMap::<&'static str, u32>::new();
    for seed in 0..SEEDS {
        for (k, v) in run_pool(seed) {
            *pool_hits.entry(k).or_default() += v;
        }
        for (k, v) in run_vault(seed) {
            *vault_hits.entry(k).or_default() += v;
        }
    }
    for op in [
        "stake", "unstake", "unstake+revert", "fund", "request_unbond", "claim", "claim+restore", "collect_fees",
        "collect_fees+revert", "advance", "transfer", "propose_session", "accept_session", "revoke_session",
        "set_config", "pause/resume",
    ] {
        assert!(pool_hits.get(op).copied().unwrap_or(0) > 0, "pool operation never exercised: {op}; coverage {pool_hits:?}");
    }
    for op in [
        "settle_deposit", "check_deposit/err", "redeem paid", "revert_redeem", "fund", "request_unbond", "claim paid",
        "restore_unbond", "fees paid", "restore_fees", "advance", "transfer", "propose_session", "accept_session",
        "revoke_session", "set_config", "pause/resume",
    ] {
        assert!(vault_hits.get(op).copied().unwrap_or(0) > 0, "vault operation never exercised: {op}; coverage {vault_hits:?}");
    }
}
