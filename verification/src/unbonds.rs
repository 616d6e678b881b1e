//! Unbond entries: assets locked for an owner at the rate of the moment, claimable after the
//! unbond period. Entries are kept per owner in a list ordered by id.
use crate::actor::Key;
use crate::u256::U256;
use std::collections::BTreeMap;
use vstd::prelude::*;

verus! {

broadcast use vstd::std_specs::btree::group_btree_axioms;

#[derive(Clone, Copy, Debug, PartialEq, Eq, Structural)]
pub struct Unbond {
    pub id: u64,
    pub shares: U256,
    pub assets: U256,
    pub requested_at: u64,
    pub claimable_at: u64,
}

pub type UnbondBook = BTreeMap<Key, Vec<Unbond>>;

/// The entries of every owner.
pub open spec fn lists(m: Map<Key, Vec<Unbond>>) -> Map<Key, Seq<Unbond>> {
    m.map_values(|v: Vec<Unbond>| v@)
}

/// The entries of one owner, empty when there are none.
pub open spec fn list_of(m: Map<Key, Seq<Unbond>>, k: Key) -> Seq<Unbond> {
    if m.contains_key(k) { m[k] } else { Seq::empty() }
}

/// Ids ascend (not necessarily strictly).
pub open spec fn sorted_by_id(s: Seq<Unbond>) -> bool {
    forall|i: int, j: int| 0 <= i <= j < s.len() ==> s[i].id <= s[j].id
}

/// Some entry of `s` carries `id`.
pub open spec fn has_id(s: Seq<Unbond>, id: u64) -> bool {
    exists|i: int| 0 <= i < s.len() && s[i].id == id
}

/// `i` is the position of the first entry of `s` that carries `id`.
pub open spec fn first_with(s: Seq<Unbond>, id: u64, i: int) -> bool {
    &&& 0 <= i < s.len()
    &&& s[i].id == id
    &&& forall|j: int| 0 <= j < i ==> s[j].id != id
}

/// A copy of the entries of `k`, empty when there are none.
pub fn entries_of(m: &UnbondBook, k: &Key) -> (r: Vec<Unbond>)
    ensures
        r@ == list_of(lists(m@), *k),
{
    match m.get(k) {
        Some(list) => {
            let c = list.clone();
            assert(c@ =~= list@);
            c
        },
        None => Vec::new(),
    }
}

/// Append `e` to the entries of `k`.
pub fn push_entry(m: &mut UnbondBook, k: Key, e: Unbond)
    ensures
        lists(final(m)@) == lists(old(m)@).insert(k, list_of(lists(old(m)@), k).push(e)),
{
    let mut list = match m.remove(&k) {
        Some(l) => l,
        None => Vec::new(),
    };
    list.push(e);
    m.insert(k, list);
    assert(lists(m@) =~= lists(old(m)@).insert(k, list_of(lists(old(m)@), k).push(e)));
}

/// The position of the first entry with `id`.
pub fn position_of(list: &Vec<Unbond>, id: u64) -> (r: Option<usize>)
    ensures
        match r {
            Some(i) => i < list@.len() && list@[i as int].id == id && forall|j: int|
                0 <= j < i ==> list@[j].id != id,
            None => forall|j: int| 0 <= j < list@.len() ==> list@[j].id != id,
        },
{
    let mut i: usize = 0;
    while i < list.len()
        invariant
            i <= list@.len(),
            forall|j: int| 0 <= j < i ==> list@[j].id != id,
        decreases list@.len() - i,
    {
        if list[i].id == id {
            return Some(i);
        }
        i = i + 1;
    }
    None
}

/// Remove and return entry `idx` of `k`; the owner's list goes when it empties.
pub fn take_at(m: &mut UnbondBook, k: Key, idx: usize) -> (e: Unbond)
    requires
        idx < list_of(lists(old(m)@), k).len(),
    ensures
        e == list_of(lists(old(m)@), k)[idx as int],
        lists(final(m)@) == (if list_of(lists(old(m)@), k).len() == 1 {
            lists(old(m)@).remove(k)
        } else {
            lists(old(m)@).insert(k, list_of(lists(old(m)@), k).remove(idx as int))
        }),
{
    let mut list = match m.remove(&k) {
        Some(l) => l,
        None => Vec::new(),
    };
    let e = list.remove(idx);
    if list.len() > 0 {
        m.insert(k, list);
        assert(lists(m@) =~= lists(old(m)@).insert(k, list_of(lists(old(m)@), k).remove(idx as int)));
    } else {
        assert(lists(m@) =~= lists(old(m)@).remove(k));
    }
    e
}

/// `sort_by_key` of std on the entry ids: the same entries, ordered by id.
#[verifier::external_body]
fn sort_by_id(list: &mut Vec<Unbond>)
    ensures
        final(list)@.to_multiset() == old(list)@.to_multiset(),
        sorted_by_id(final(list)@),
{
    list.sort_by_key(|u| u.id);
}

/// Put `e` back among the entries of `k` and order the list by id.
pub fn restore_entry(m: &mut UnbondBook, k: Key, e: Unbond)
    ensures
        lists(final(m)@).contains_key(k),
        lists(final(m)@)[k].to_multiset() == list_of(lists(old(m)@), k).push(e).to_multiset(),
        sorted_by_id(lists(final(m)@)[k]),
        lists(final(m)@).remove(k) == lists(old(m)@).remove(k),
{
    let mut list = match m.remove(&k) {
        Some(l) => l,
        None => Vec::new(),
    };
    list.push(e);
    sort_by_id(&mut list);
    m.insert(k, list);
    assert(lists(m@).remove(k) =~= lists(old(m)@).remove(k));
}

// --- what the book owes ---------------------------------------------------------------------

/// The assets of a list of entries, summed.
pub open spec fn assets_of(s: Seq<Unbond>) -> nat
    decreases s.len(),
{
    if s.len() == 0 {
        0
    } else {
        assets_of(s.drop_last()) + s.last().assets@
    }
}

/// The assets each owner is owed.
pub open spec fn owed(m: Map<Key, Seq<Unbond>>) -> Map<Key, nat> {
    m.map_values(|l: Seq<Unbond>| assets_of(l))
}

/// Ids strictly ascend.
pub open spec fn ids_ascending(s: Seq<Unbond>) -> bool {
    forall|i: int, j: int| 0 <= i < j < s.len() ==> s[i].id < s[j].id
}

/// Every owner's list is non-empty, strictly ordered by id, and below the next id to hand out.
pub open spec fn book_ok(m: Map<Key, Seq<Unbond>>, next_id: u64) -> bool {
    &&& m.dom().finite()
    &&& forall|k: Key| #[trigger] m.contains_key(k) ==> {
        &&& m[k].len() > 0
        &&& ids_ascending(m[k])
        &&& forall|i: int| 0 <= i < m[k].len() ==> #[trigger] m[k][i].id < next_id
    }
}

/// Appending an entry adds its assets.
pub proof fn lemma_assets_push(s: Seq<Unbond>, e: Unbond)
    ensures
        assets_of(s.push(e)) == assets_of(s) + e.assets@,
{
    assert(s.push(e).drop_last() =~= s);
}

/// Removing entry `i` takes its assets away.
pub proof fn lemma_assets_remove(s: Seq<Unbond>, i: int)
    requires
        0 <= i < s.len(),
    ensures
        assets_of(s.remove(i)) + s[i].assets@ == assets_of(s),
    decreases s.len(),
{
    if i == s.len() - 1 {
        assert(s.remove(i) =~= s.drop_last());
    } else {
        let d = s.drop_last();
        lemma_assets_remove(d, i);
        assert(s.remove(i) =~= d.remove(i).push(s.last()));
        lemma_assets_push(d.remove(i), s.last());
    }
}

/// A list strictly ordered by id and a list ordered by id with the same entries are the same
/// list.
pub proof fn lemma_sorted_same_entries(a: Seq<Unbond>, b: Seq<Unbond>)
    requires
        ids_ascending(a),
        sorted_by_id(b),
        a.to_multiset() == b.to_multiset(),
    ensures
        a == b,
    decreases a.len(),
{
    broadcast use vstd::seq_lib::group_to_multiset_ensures;

    assert(a.len() == a.to_multiset().len());
    assert(b.len() == b.to_multiset().len());
    if a.len() > 0 {
        assert(a.to_multiset().count(a[0]) > 0) by {
            assert(a.contains(a[0]));
        }
        assert(b.contains(a[0]));
        let j = choose|j: int| 0 <= j < b.len() && b[j] == a[0];
        assert(b.to_multiset().count(b[0]) > 0) by {
            assert(b.contains(b[0]));
        }
        assert(a.contains(b[0]));
        let i = choose|i: int| 0 <= i < a.len() && a[i] == b[0];
        assert(b[0].id <= b[j].id);
        if i > 0 {
            assert(a[0].id < a[i].id);
        }
        assert(i == 0);
        assert(a[0] == b[0]);
        let a1 = a.remove(0);
        let b1 = b.remove(0);
        assert(a1.to_multiset() == a.to_multiset().remove(a[0]));
        assert(b1.to_multiset() == b.to_multiset().remove(b[0]));
        assert forall|x: int, y: int| 0 <= x < y < a1.len() implies a1[x].id < a1[y].id by {
            assert(a1[x] == a[x + 1] && a1[y] == a[y + 1]);
        }
        assert forall|x: int, y: int| 0 <= x <= y < b1.len() implies b1[x].id <= b1[y].id by {
            assert(b1[x] == b[x + 1] && b1[y] == b[y + 1]);
        }
        lemma_sorted_same_entries(a1, b1);
        assert(a =~= b) by {
            assert forall|x: int| 0 <= x < a.len() implies a[x] == b[x] by {
                if x > 0 {
                    assert(a[x] == a1[x - 1] && b[x] == b1[x - 1]);
                }
            }
        }
    } else {
        assert(a =~= b);
    }
}

} // verus!
