use vstd::prelude::*;

use ic_stable_structures::{BTreeMap as StableBTreeMap, DefaultMemoryImpl};

verus! {

/// The durable map the balance table is kept in; opaque to the verifier,
/// described only through [`balance_map_contents`].
#[verifier::external_body]
pub struct BalanceMap {
    map: StableBTreeMap<String, u64, DefaultMemoryImpl>,
}

/// A balance table with nothing in it.
pub open spec fn empty_balances() -> Map<Seq<char>, u64> {
    Map::empty()
}

/// What the durable balance table holds: one amount per token symbol.
pub uninterp spec fn balance_map_contents(m: BalanceMap) -> Map<
    Seq<char>,
    u64,
>;

/// Relies on `ic_stable_structures::BTreeMap::new`: a map built on fresh
/// memory holds nothing.
#[verifier::external_body]
fn sbtree_new() -> (r: BalanceMap)
    ensures
        balance_map_contents(r) == empty_balances(),
{
    BalanceMap { map: StableBTreeMap::new(DefaultMemoryImpl::default()) }
}

/// Relies on `ic_stable_structures::BTreeMap::insert`: the entry is added
/// or replaced, and the previous value under the key comes back.
#[verifier::external_body]
fn sbtree_insert(
    m: &mut BalanceMap,
    key: String,
    value: u64,
) -> (prev: Option<u64>)
    ensures
        balance_map_contents(*final(m)) == balance_map_contents(*old(m)).insert(key@, value),
        prev == (if balance_map_contents(*old(m)).contains_key(key@) {
            Option::Some(balance_map_contents(*old(m))[key@])
        } else {
            Option::<u64>::None
        }),
{
    m.map.insert(key, value)
}

/// Relies on `ic_stable_structures::BTreeMap::get`: the value under the
/// key, if the key is present.
#[verifier::external_body]
fn sbtree_get(m: &BalanceMap, key: &String) -> (r: Option<u64>)
    ensures
        r == (if balance_map_contents(*m).contains_key(key@) {
            Option::Some(balance_map_contents(*m)[key@])
        } else {
            Option::<u64>::None
        }),
{
    m.map.get(key)
}

/// Relies on `ic_stable_structures::BTreeMap::iter`: every stored entry
/// comes out exactly once, each key with its value.
#[verifier::external_body]
fn sbtree_entries(m: &BalanceMap) -> (r: Vec<(String, u64)>)
    ensures
        forall|i: int|
            0 <= i < r@.len() ==> balance_map_contents(*m).contains_key(#[trigger] r@[i].0@)
                && balance_map_contents(*m)[r@[i].0@] == r@[i].1,
        forall|i: int, j: int| 0 <= i < j < r@.len() ==> r@[i].0@ != r@[j].0@,
        forall|k: Seq<char>|
            balance_map_contents(*m).contains_key(k) ==> exists|i: int|
                0 <= i < r@.len() && #[trigger] r@[i].0@ == k,
{
    m.map.iter().map(|e| (e.key().clone(), e.value())).collect()
}

/// The balance recorded for a token: zero when the token has no entry.
pub open spec fn spec_balance(m: Map<Seq<char>, u64>, token: Seq<char>) -> u64 {
    if m.contains_key(token) {
        m[token]
    } else {
        0u64
    }
}

/// The tenant's per-token accumulator of net-of-fee funds, kept in a
/// durable map from token symbol to amount.
pub struct BalanceStore {
    map: BalanceMap,
}

impl BalanceStore {
    /// The recorded amounts, one per token symbol.
    pub closed spec fn m(&self) -> Map<Seq<char>, u64> {
        balance_map_contents(self.map)
    }

    pub fn new() -> (s: Self)
        ensures
            s.m() == empty_balances(),
    {
        BalanceStore { map: sbtree_new() }
    }

    pub fn get_balance(&self, token: &String) -> (r: u64)
        ensures
            r == spec_balance(self.m(), token@),
    {
        match sbtree_get(&self.map, token) {
            Some(v) => v,
            None => 0,
        }
    }

    /// Adds settled funds to a token's balance; a sum that would pass
    /// the machine limit stops there.
    pub fn credit(&mut self, token: &String, amount: u64)
        ensures
            final(self).m() == old(self).m().insert(
                token@,
                (if spec_balance(old(self).m(), token@) + amount > u64::MAX {
                    u64::MAX as int
                } else {
                    spec_balance(old(self).m(), token@) + amount
                }) as u64,
            ),
    {
        let cur = self.get_balance(token);
        let newv = if amount > u64::MAX - cur {
            u64::MAX
        } else {
            cur + amount
        };
        sbtree_insert(&mut self.map, token.clone(), newv);
    }

    /// Takes withdrawn funds out of a token's balance.
    pub fn debit(&mut self, token: &String, amount: u64)
        requires
            amount <= spec_balance(old(self).m(), token@),
        ensures
            final(self).m() == old(self).m().insert(
                token@,
                (spec_balance(old(self).m(), token@) - amount) as u64,
            ),
    {
        let cur = self.get_balance(token);
        sbtree_insert(&mut self.map, token.clone(), cur - amount);
    }

    /// Every token's recorded balance, each exactly once.
    pub fn get_all_balances(&self) -> (r: Vec<(String, u64)>)
        ensures
            forall|i: int|
                0 <= i < r@.len() ==> self.m().contains_key(#[trigger] r@[i].0@) && self.m()[
                    r@[i].0@
                ] == r@[i].1,
            forall|i: int, j: int| 0 <= i < j < r@.len() ==> r@[i].0@ != r@[j].0@,
            forall|k: Seq<char>|
                self.m().contains_key(k) ==> exists|i: int|
                    0 <= i < r@.len() && #[trigger] r@[i].0@ == k,
    {
        sbtree_entries(&self.map)
    }
}

} // verus!
