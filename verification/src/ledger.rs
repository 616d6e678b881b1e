//! The books shared by the three programs: balances per account and allowances per
//! (owner, spender) pair, with the invariant that no zero balance is stored, and the sum of a
//! book as the supply it must match.
use crate::actor::Key;
use crate::u256::{u256_max, U256};
use std::collections::BTreeMap;
use vstd::prelude::*;
use vstd::set::fold::{is_fun_commutative, lemma_fold_empty, lemma_fold_insert};

verus! {

broadcast use vstd::std_specs::btree::group_btree_axioms, crate::u256::lemma_u256_bounded;

/// The key type orders as std documents (integers and tuples of them do).
pub open spec fn ordered_keys<K: Ord>() -> bool {
    vstd::laws_cmp::obeys_cmp::<K>()
}

/// Account keys and pairs of them order as std documents.
pub proof fn lemma_keys_ordered()
    ensures
        ordered_keys::<Key>(),
        ordered_keys::<(Key, Key)>(),
{
}

pub type Balances = BTreeMap<Key, U256>;

pub type Allowances = BTreeMap<(Key, Key), U256>;

/// The amounts a book holds.
pub open spec fn amounts<K>(m: Map<K, U256>) -> Map<K, nat> {
    m.map_values(|v: U256| v@)
}

/// The amount held under `k`, zero when absent.
pub open spec fn amount_of<K>(m: Map<K, nat>, k: K) -> nat {
    if m.contains_key(k) { m[k] } else { 0 }
}

/// `m` with `k` set to `v`; a zero amount removes the entry.
pub open spec fn with_amount<K>(m: Map<K, nat>, k: K, v: nat) -> Map<K, nat> {
    if v == 0 { m.remove(k) } else { m.insert(k, v) }
}

/// `m` after taking `v` from the entry of `k` (an emptied entry is removed).
pub open spec fn debited<K>(m: Map<K, nat>, k: K, v: nat) -> Map<K, nat> {
    with_amount(m, k, (amount_of(m, k) - v) as nat)
}

/// `m` after adding `v` to the entry of `k` (the entry is written even when it stays zero).
pub open spec fn credited<K>(m: Map<K, nat>, k: K, v: nat) -> Map<K, nat> {
    m.insert(k, amount_of(m, k) + v)
}

/// No entry holds zero.
pub open spec fn no_zero_entry<K>(m: Map<K, nat>) -> bool {
    forall|k: K| #[trigger] m.contains_key(k) ==> m[k] > 0
}

pub open spec fn adder<K>(m: Map<K, nat>) -> spec_fn(nat, K) -> nat {
    |acc: nat, k: K| acc + m[k]
}

pub open spec fn sum_over<K>(s: Set<K>, m: Map<K, nat>) -> nat {
    s.fold(0nat, adder(m))
}

/// The sum of every amount in the book.
pub open spec fn total<K>(m: Map<K, nat>) -> nat {
    sum_over(m.dom(), m)
}

proof fn lemma_adder_commutative<K>(m: Map<K, nat>)
    ensures
        is_fun_commutative(adder(m)),
{
    assert forall|a1: K, a2: K, b: nat| #[trigger]
        adder(m)(adder(m)(b, a2), a1) == adder(m)(adder(m)(b, a1), a2) by {}
}

proof fn lemma_sum_over_agree<K>(s: Set<K>, m1: Map<K, nat>, m2: Map<K, nat>)
    requires
        s.finite(),
        forall|k: K| #[trigger] s.contains(k) ==> m1[k] == m2[k],
    ensures
        sum_over(s, m1) == sum_over(s, m2),
    decreases s.len(),
{
    lemma_adder_commutative(m1);
    lemma_adder_commutative(m2);
    if s.len() == 0 {
        assert(s =~= Set::empty());
        lemma_fold_empty(0nat, adder(m1));
        lemma_fold_empty(0nat, adder(m2));
    } else {
        let a = s.choose();
        let r = s.remove(a);
        lemma_sum_over_agree(r, m1, m2);
        assert(s =~= r.insert(a));
        lemma_fold_insert(r, 0nat, adder(m1), a);
        lemma_fold_insert(r, 0nat, adder(m2), a);
    }
}

proof fn lemma_sum_over_insert<K>(s: Set<K>, m: Map<K, nat>, a: K)
    requires
        s.finite(),
        !s.contains(a),
    ensures
        sum_over(s.insert(a), m) == sum_over(s, m) + m[a],
{
    lemma_adder_commutative(m);
    lemma_fold_insert(s, 0nat, adder(m), a);
}

/// The empty book sums to zero.
pub proof fn lemma_total_empty<K>()
    ensures
        total(Map::<K, nat>::empty()) == 0,
{
    lemma_adder_commutative(Map::<K, nat>::empty());
    assert(Map::<K, nat>::empty().dom() =~= Set::empty());
    lemma_fold_empty(0nat, adder(Map::<K, nat>::empty()));
}

/// Setting one entry moves the sum by the difference.
pub proof fn lemma_total_insert<K>(m: Map<K, nat>, k: K, v: nat)
    requires
        m.dom().finite(),
    ensures
        total(m.insert(k, v)) + amount_of(m, k) == total(m) + v,
{
    let m2 = m.insert(k, v);
    let d = m.dom().remove(k);
    assert(d.finite());
    lemma_sum_over_agree(d, m, m2);
    assert(m2.dom() =~= d.insert(k));
    lemma_sum_over_insert(d, m2, k);
    if m.contains_key(k) {
        assert(m.dom() =~= d.insert(k));
        lemma_sum_over_insert(d, m, k);
    } else {
        assert(m.dom() =~= d);
    }
}

/// Removing one entry lowers the sum by its amount.
pub proof fn lemma_total_remove<K>(m: Map<K, nat>, k: K)
    requires
        m.dom().finite(),
    ensures
        total(m.remove(k)) + amount_of(m, k) == total(m),
{
    let m2 = m.remove(k);
    let d = m.dom().remove(k);
    assert(d.finite());
    lemma_sum_over_agree(d, m, m2);
    assert(m2.dom() =~= d);
    if m.contains_key(k) {
        assert(m.dom() =~= d.insert(k));
        lemma_sum_over_insert(d, m, k);
    } else {
        assert(m.dom() =~= d);
    }
}

/// Setting an entry with `with_amount` moves the sum by the difference.
pub proof fn lemma_total_with_amount<K>(m: Map<K, nat>, k: K, v: nat)
    requires
        m.dom().finite(),
    ensures
        total(with_amount(m, k, v)) + amount_of(m, k) == total(m) + v,
        with_amount(m, k, v).dom().finite(),
{
    if v == 0 {
        lemma_total_remove(m, k);
    } else {
        lemma_total_insert(m, k, v);
    }
}

/// Every amount of the book priced at `p` over `d`, rounded down.
pub open spec fn priced<K>(m: Map<K, nat>, p: nat, d: nat) -> Map<K, nat> {
    m.map_values(|b: nat| b * p / d)
}

/// Rounding each entry down before summing never gives more than pricing the sum: what the
/// entries are worth one by one is at most what the whole book is worth.
pub proof fn lemma_total_priced<K>(m: Map<K, nat>, p: nat, d: nat)
    requires
        m.dom().finite(),
        d > 0,
    ensures
        total(priced(m, p, d)) <= total(m) * p / d,
        priced(m, p, d).dom() == m.dom(),
    decreases m.dom().len(),
{
    let pm = priced(m, p, d);
    assert(pm.dom() =~= m.dom());
    if m.dom().len() == 0 {
        assert(pm =~= Map::<K, nat>::empty());
        lemma_total_empty::<K>();
    } else {
        let k = m.dom().choose();
        let rest = m.remove(k);
        lemma_total_priced(rest, p, d);
        assert(pm.remove(k) =~= priced(rest, p, d));
        lemma_total_remove(pm, k);
        lemma_total_remove(m, k);
        let x = total(rest);
        let y = m[k];
        assert(x * p / d + y * p / d <= (x + y) * p / d) by (nonlinear_arith)
            requires
                d > 0,
        ;
    }
}

/// Repricing a book from `p1` over `d1` to a price no lower, `p2` over `d2`, lowers no entry
/// that kept its amount.
pub proof fn lemma_priced_not_lower<K>(m1: Map<K, nat>, m2: Map<K, nat>, k: K, p1: nat, d1: nat, p2: nat, d2: nat)
    requires
        d1 > 0,
        d2 > 0,
        p2 * d1 >= p1 * d2,
        amount_of(m1, k) == amount_of(m2, k),
    ensures
        amount_of(priced(m1, p1, d1), k) <= amount_of(priced(m2, p2, d2), k),
{
    let b = amount_of(m1, k);
    let r = b * p1 / d1;
    assert(r * d1 <= b * p1) by (nonlinear_arith)
        requires
            d1 > 0,
            r == b * p1 / d1,
    ;
    assert(r * d1 * d2 <= b * p1 * d2) by (nonlinear_arith)
        requires
            r * d1 <= b * p1,
    ;
    assert(b * p1 * d2 <= b * p2 * d1) by (nonlinear_arith)
        requires
            p2 * d1 >= p1 * d2,
    ;
    assert(r * d2 <= b * p2) by (nonlinear_arith)
        requires
            d1 > 0,
            r * d1 * d2 <= b * p2 * d1,
    ;
    assert(r <= b * p2 / d2) by (nonlinear_arith)
        requires
            d2 > 0,
            r * d2 <= b * p2,
    ;
    if !m1.contains_key(k) {
        assert(b == 0);
    }
}

/// An entry never exceeds the sum of the book.
pub proof fn lemma_amount_le_total<K>(m: Map<K, nat>, k: K)
    requires
        m.dom().finite(),
    ensures
        amount_of(m, k) <= total(m),
{
    lemma_total_remove(m, k);
}

/// Two distinct entries together never exceed the sum of the book.
pub proof fn lemma_two_amounts_le_total<K>(m: Map<K, nat>, a: K, b: K)
    requires
        m.dom().finite(),
        a != b,
    ensures
        amount_of(m, a) + amount_of(m, b) <= total(m),
{
    lemma_total_remove(m, a);
    let r = m.remove(a);
    assert(amount_of(r, b) == amount_of(m, b));
    lemma_total_remove(r, b);
}

/// Adding `v` to an entry adds `v` to the sum.
pub proof fn lemma_total_credited<K>(m: Map<K, nat>, k: K, v: nat)
    requires
        m.dom().finite(),
    ensures
        total(credited(m, k, v)) == total(m) + v,
        credited(m, k, v).dom().finite(),
{
    lemma_total_insert(m, k, amount_of(m, k) + v);
}

/// Taking `v` from an entry that holds at least `v` takes `v` from the sum.
pub proof fn lemma_total_debited<K>(m: Map<K, nat>, k: K, v: nat)
    requires
        m.dom().finite(),
        v <= amount_of(m, k),
    ensures
        total(debited(m, k, v)) + v == total(m),
        debited(m, k, v).dom().finite(),
{
    lemma_total_with_amount(m, k, (amount_of(m, k) - v) as nat);
}

/// Moving `v` between two entries keeps the sum.
pub proof fn lemma_total_moved<K>(m: Map<K, nat>, from: K, to: K, v: nat)
    requires
        m.dom().finite(),
        v <= amount_of(m, from),
    ensures
        total(credited(debited(m, from, v), to, v)) == total(m),
        credited(debited(m, from, v), to, v).dom().finite(),
{
    lemma_total_debited(m, from, v);
    lemma_total_credited(debited(m, from, v), to, v);
}

/// A debit and a positive credit store no zero entry.
pub proof fn lemma_no_zero_kept<K>(m: Map<K, nat>, from: K, to: K, v: nat)
    requires
        no_zero_entry(m),
        v > 0,
    ensures
        no_zero_entry(debited(m, from, v)),
        no_zero_entry(credited(m, to, v)),
        no_zero_entry(credited(debited(m, from, v), to, v)),
{
}

/// Amount of `k` in a book, zero when absent.
pub fn amount_in<K: Ord>(m: &BTreeMap<K, U256>, k: &K) -> (r: U256)
    requires
        ordered_keys::<K>(),
    ensures
        r@ == amount_of(amounts(m@), *k),
{
    match m.get(k) {
        Some(v) => *v,
        None => U256::zero(),
    }
}

/// Set `k` to `v`, removing the entry when `v` is zero.
pub fn store_amount<K: Ord>(m: &mut BTreeMap<K, U256>, k: K, v: U256)
    requires
        ordered_keys::<K>(),
    ensures
        amounts(final(m)@) == with_amount(amounts(old(m)@), k, v@),
{
    if v.is_zero() {
        m.remove(&k);
        assert(amounts(m@) =~= amounts(old(m)@).remove(k));
    } else {
        m.insert(k, v);
        assert(amounts(m@) =~= amounts(old(m)@).insert(k, v@));
    }
}

/// Add `value` to the balance of `k`. Fails, changing nothing, when the sum would exceed
/// 2^256 - 1. The entry is written even when the sum is zero.
pub fn credit_in<K: Ord>(m: &mut BTreeMap<K, U256>, k: K, value: U256) -> (ok: bool)
    requires
        ordered_keys::<K>(),
    ensures
        ok == (amount_of(amounts(old(m)@), k) + value@ <= u256_max()),
        ok ==> amounts(final(m)@) == credited(amounts(old(m)@), k, value@),
        !ok ==> final(m)@ == old(m)@,
{
    let bal = amount_in(m, &k);
    match bal.checked_add(value) {
        Some(new) => {
            m.insert(k, new);
            assert(amounts(m@) =~= amounts(old(m)@).insert(k, new@));
            true
        },
        None => false,
    }
}

/// Take `value` from the balance of `k`; an emptied entry is removed. Fails, changing
/// nothing, when the balance is smaller than `value`.
pub fn debit_in<K: Ord>(m: &mut BTreeMap<K, U256>, k: K, value: U256) -> (ok: bool)
    requires
        ordered_keys::<K>(),
    ensures
        ok == (value@ <= amount_of(amounts(old(m)@), k)),
        ok ==> amounts(final(m)@) == debited(amounts(old(m)@), k, value@),
        !ok ==> final(m)@ == old(m)@,
{
    let bal = amount_in(m, &k);
    match bal.checked_sub(value) {
        Some(new) => {
            store_amount(m, k, new);
            true
        },
        None => false,
    }
}

/// Spend `value` of the allowance under `k`: an allowance of 2^256 - 1 is never spent, an
/// emptied one is removed. Fails, changing nothing, when the allowance is smaller.
pub fn spend_in<K: Ord>(m: &mut BTreeMap<K, U256>, k: K, value: U256) -> (ok: bool)
    requires
        ordered_keys::<K>(),
    ensures
        ok == (amount_of(amounts(old(m)@), k) == u256_max() || value@ <= amount_of(
            amounts(old(m)@),
            k,
        )),
        ok && amount_of(amounts(old(m)@), k) == u256_max() ==> final(m)@ == old(m)@,
        ok && amount_of(amounts(old(m)@), k) != u256_max() ==> amounts(final(m)@) == debited(
            amounts(old(m)@),
            k,
            value@,
        ),
        !ok ==> final(m)@ == old(m)@,
{
    let current = amount_in(m, &k);
    if current.eq_val(&U256::max_value()) {
        return true;
    }
    debit_in(m, k, value)
}

} // verus!
