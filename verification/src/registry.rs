use vstd::prelude::*;
use vstd::string::StringExecFns;

use crate::config::{has_token, tokens_view, TokenConfig, TokenConfigView};
use crate::principal::{clone_principals, principals_view, Principal};
use crate::table::{Table, TableItem};
use crate::util::ref_views;

verus! {

/// The registry's record of one provisioned tenant unit.
#[derive(Debug)]
pub struct CanisterRecord {
    pub id: Principal,
    pub owner: Principal,
    pub name: String,
    pub description: String,
    pub version: u64,
    pub created_at: u64,
    pub last_updated: u64,
    pub is_active: bool,
    pub supported_tokens: Vec<TokenConfig>,
}

pub struct CanisterRecordView {
    pub id: Seq<char>,
    pub owner: Seq<char>,
    pub name: Seq<char>,
    pub description: Seq<char>,
    pub version: u64,
    pub created_at: u64,
    pub last_updated: u64,
    pub is_active: bool,
    pub supported_tokens: Seq<TokenConfigView>,
}

impl View for CanisterRecord {
    type V = CanisterRecordView;

    open spec fn view(&self) -> CanisterRecordView {
        CanisterRecordView {
            id: self.id@,
            owner: self.owner@,
            name: self.name@,
            description: self.description@,
            version: self.version,
            created_at: self.created_at,
            last_updated: self.last_updated,
            is_active: self.is_active,
            supported_tokens: tokens_view(self.supported_tokens@),
        }
    }
}

impl TableItem for CanisterRecord {
    open spec fn view_key(v: CanisterRecordView) -> Seq<char> {
        v.id
    }

    fn key(&self) -> (k: &String) {
        &self.id.text
    }
}

/// One owner's entry in the owner index: the units filed under that owner.
#[derive(Debug)]
pub struct OwnerUnits {
    pub owner: Principal,
    pub units: Vec<Principal>,
}

pub struct OwnerUnitsView {
    pub owner: Seq<char>,
    pub units: Seq<Seq<char>>,
}

impl View for OwnerUnits {
    type V = OwnerUnitsView;

    open spec fn view(&self) -> OwnerUnitsView {
        OwnerUnitsView { owner: self.owner@, units: principals_view(self.units@) }
    }
}

impl TableItem for OwnerUnits {
    open spec fn view_key(v: OwnerUnitsView) -> Seq<char> {
        v.owner
    }

    fn key(&self) -> (k: &String) {
        &self.owner.text
    }
}

/// The factory's aggregate counters.
#[derive(Clone, Copy, PartialEq, Eq, Structural, Debug)]
pub struct FactoryStats {
    pub total_canisters: u64,
    pub active_canisters: u64,
    pub total_users: u64,
    pub current_version: u64,
}

/// The factory's durable state: the unit registry, the owner index,
/// the aggregate counters and the runtime-set unit package.
pub struct FactoryState {
    pub units: Table<CanisterRecord>,
    pub owners: Table<OwnerUnits>,
    pub next_canister_version: u64,
    pub stats: FactoryStats,
    pub embedded_wasm: Vec<u8>,
    pub stored_wasm: Option<Vec<u8>>,
    pub admin: Principal,
}

/// The unit ids filed under an owner, empty when the owner has no entry.
pub open spec fn owner_units_of(s: &FactoryState, o: Seq<char>) -> Seq<Seq<char>> {
    if s.owners.m().contains_key(o) {
        s.owners.m()[o].units
    } else {
        Seq::<Seq<char>>::empty()
    }
}

/// The runtime-set package bytes, if an admin stored one.
pub open spec fn stored_wasm_view(s: &FactoryState) -> Option<Seq<u8>> {
    match s.stored_wasm {
        Option::Some(w) => Option::Some(w@),
        Option::None => Option::None,
    }
}

/// A record carries `symbol` among its supported tokens.
pub open spec fn record_supports(c: CanisterRecordView, symbol: Seq<char>) -> bool {
    has_token(c.supported_tokens, symbol)
}

/// The active records of `s`, in order.
pub open spec fn active_units(s: Seq<CanisterRecordView>) -> Seq<CanisterRecordView>
    decreases s.len(),
{
    if s.len() == 0 {
        Seq::<CanisterRecordView>::empty()
    } else {
        let rest = active_units(s.drop_last());
        if s.last().is_active {
            rest.push(s.last())
        } else {
            rest
        }
    }
}

/// The active records of `s` that support `symbol`, in order.
pub open spec fn units_with_token(s: Seq<CanisterRecordView>, symbol: Seq<char>) -> Seq<
    CanisterRecordView,
>
    decreases s.len(),
{
    if s.len() == 0 {
        Seq::<CanisterRecordView>::empty()
    } else {
        let rest = units_with_token(s.drop_last(), symbol);
        if s.last().is_active && record_supports(s.last(), symbol) {
            rest.push(s.last())
        } else {
            rest
        }
    }
}

impl FactoryState {
    pub open spec fn wf(&self) -> bool {
        &&& self.units.wf()
        &&& self.owners.wf()
    }

    pub fn new(admin: Principal, embedded_wasm: Vec<u8>) -> (s: Self)
        ensures
            s.wf(),
            s.units.m() == Map::<Seq<char>, CanisterRecordView>::empty(),
            s.owners.m() == Map::<Seq<char>, OwnerUnitsView>::empty(),
            s.next_canister_version == 1,
            s.stats == (FactoryStats {
                total_canisters: 0,
                active_canisters: 0,
                total_users: 0,
                current_version: 0,
            }),
            s.embedded_wasm@ == embedded_wasm@,
            s.stored_wasm is None,
            s.admin@ == admin@,
    {
        FactoryState {
            units: Table::new(),
            owners: Table::new(),
            next_canister_version: 1,
            stats: FactoryStats {
                total_canisters: 0,
                active_canisters: 0,
                total_users: 0,
                current_version: 0,
            },
            embedded_wasm,
            stored_wasm: None,
            admin,
        }
    }

    pub fn is_admin(&self, caller: &Principal) -> (r: bool)
        ensures
            r == (caller@ == self.admin@),
    {
        caller.eq_p(&self.admin)
    }

    /// Hands out the next unit version and advances the counter.
    pub fn get_next_canister_version(&mut self) -> (v: u64)
        requires
            old(self).next_canister_version < u64::MAX,
        ensures
            v == old(self).next_canister_version,
            final(self).next_canister_version == old(self).next_canister_version + 1,
            final(self).units == old(self).units,
            final(self).owners == old(self).owners,
            final(self).stats == old(self).stats,
            final(self).stored_wasm == old(self).stored_wasm,
            final(self).embedded_wasm == old(self).embedded_wasm,
            final(self).admin == old(self).admin,
    {
        let v = self.next_canister_version;
        self.next_canister_version = v + 1;
        v
    }

    /// Counts one more provisioned, active unit.
    pub fn increment_total_canisters(&mut self)
        requires
            old(self).stats.total_canisters < u64::MAX,
            old(self).stats.active_canisters < u64::MAX,
        ensures
            final(self).stats.total_canisters == old(self).stats.total_canisters + 1,
            final(self).stats.active_canisters == old(self).stats.active_canisters + 1,
            final(self).stats.total_users == old(self).stats.total_users,
            final(self).stats.current_version == old(self).stats.current_version,
            final(self).units == old(self).units,
            final(self).owners == old(self).owners,
            final(self).next_canister_version == old(self).next_canister_version,
            final(self).stored_wasm == old(self).stored_wasm,
            final(self).embedded_wasm == old(self).embedded_wasm,
            final(self).admin == old(self).admin,
    {
        let mut stats = self.stats;
        stats.total_canisters = stats.total_canisters + 1;
        stats.active_canisters = stats.active_canisters + 1;
        self.stats = stats;
    }

    /// The runtime-set unit package, if any.
    pub fn get_user_canister_wasm(&self) -> (r: Option<Vec<u8>>)
        ensures
            match r {
                Some(w) => stored_wasm_view(self) == Some(w@),
                None => stored_wasm_view(self) is None,
            },
    {
        match &self.stored_wasm {
            Some(w) => {
                let c = crate::util::clone_bytes(w);
                Some(c)
            },
            None => None,
        }
    }

    /// Stores a unit package for later installs.
    pub fn set_user_canister_wasm(&mut self, wasm: Vec<u8>)
        ensures
            stored_wasm_view(final(self)) == Some(wasm@),
            final(self).units == old(self).units,
            final(self).owners == old(self).owners,
            final(self).stats == old(self).stats,
            final(self).next_canister_version == old(self).next_canister_version,
            final(self).embedded_wasm == old(self).embedded_wasm,
            final(self).admin == old(self).admin,
    {
        self.stored_wasm = Some(wasm);
    }

    /// Files a unit record under its id.
    pub fn add_user_canister(&mut self, record: CanisterRecord)
        requires
            old(self).wf(),
        ensures
            final(self).wf(),
            final(self).units.m() == old(self).units.m().insert(record@.id, record@),
            final(self).owners == old(self).owners,
            final(self).stats == old(self).stats,
            final(self).next_canister_version == old(self).next_canister_version,
            final(self).stored_wasm == old(self).stored_wasm,
            final(self).embedded_wasm == old(self).embedded_wasm,
            final(self).admin == old(self).admin,
    {
        self.units.insert(record);
    }

    pub fn get_user_canister(&self, canister_id: &Principal) -> (r: Option<&CanisterRecord>)
        requires
            self.wf(),
        ensures
            match r {
                Some(c) => self.units.m().contains_key(canister_id@)
                    && c@ == self.units.m()[canister_id@],
                None => !self.units.m().contains_key(canister_id@),
            },
    {
        self.units.get(&canister_id.text)
    }

    /// Appends a unit to an owner's index entry, creating the entry if
    /// the owner has none yet.
    pub fn add_canister_to_owner(&mut self, owner: Principal, canister_id: Principal)
        requires
            old(self).wf(),
        ensures
            final(self).wf(),
            final(self).owners.m() == old(self).owners.m().insert(
                owner@,
                OwnerUnitsView {
                    owner: owner@,
                    units: owner_units_of(old(self), owner@).push(canister_id@),
                },
            ),
            final(self).units == old(self).units,
            final(self).stats == old(self).stats,
            final(self).next_canister_version == old(self).next_canister_version,
            final(self).stored_wasm == old(self).stored_wasm,
            final(self).embedded_wasm == old(self).embedded_wasm,
            final(self).admin == old(self).admin,
    {
        let entry = self.owners.remove(&owner.text);
        match entry {
            Some(mut ou) => {
                proof {
                    old(self).owners.lemma_filed_under_own_key(owner@);
                    assert(ou@.owner == owner@);
                }
                ou.units.push(canister_id);
                proof {
                    assert(ou@.units =~= owner_units_of(old(self), owner@).push(canister_id@));
                }
                self.owners.insert(ou);
                proof {
                    assert(self.owners.m() =~= old(self).owners.m().insert(
                        owner@,
                        OwnerUnitsView {
                            owner: owner@,
                            units: owner_units_of(old(self), owner@).push(canister_id@),
                        },
                    ));
                }
            },
            None => {
                let mut units: Vec<Principal> = Vec::new();
                units.push(canister_id);
                let ou = OwnerUnits { owner, units };
                proof {
                    assert(ou@.units =~= owner_units_of(old(self), owner@).push(ou.units@[0]@));
                }
                self.owners.insert(ou);
            },
        }
    }

    /// The unit ids filed under `owner`, as a fresh list.
    pub fn get_owner_canisters(&self, owner: &Principal) -> (r: Vec<Principal>)
        requires
            self.wf(),
        ensures
            principals_view(r@) == owner_units_of(self, owner@),
    {
        match self.owners.get(&owner.text) {
            Some(ou) => clone_principals(&ou.units),
            None => {
                let r: Vec<Principal> = Vec::new();
                proof {
                    assert(principals_view(r@) =~= owner_units_of(self, owner@));
                }
                r
            },
        }
    }

    /// All active unit records.
    pub fn get_active_canisters(&self) -> (r: Vec<&CanisterRecord>)
        ensures
            ref_views(r@) == active_units(self.units.sq()),
    {
        let n = self.units.len();
        let mut r: Vec<&CanisterRecord> = Vec::new();
        let mut i: usize = 0;
        proof {
            assert(self.units.sq().take(0) =~= Seq::<CanisterRecordView>::empty());
            assert(ref_views(r@) =~= active_units(self.units.sq().take(0)));
        }
        while i < n
            invariant
                n == self.units.sq().len(),
                i <= n,
                ref_views(r@) == active_units(self.units.sq().take(i as int)),
            decreases n - i,
        {
            let c = self.units.nth(i);
            proof {
                assert(self.units.sq().take(i + 1).drop_last() =~= self.units.sq().take(i as int));
                assert(self.units.sq().take(i + 1).last() == self.units.sq()[i as int]);
            }
            if c.is_active {
                r.push(c);
            }
            proof {
                assert(ref_views(r@) =~= active_units(self.units.sq().take(i + 1)));
            }
            i += 1;
        }
        proof {
            assert(self.units.sq().take(n as int) =~= self.units.sq());
        }
        r
    }

    /// All active unit records that support the given token symbol.
    pub fn find_canisters_by_token_symbol(&self, token_symbol: &String) -> (r: Vec<
        &CanisterRecord,
    >)
        ensures
            ref_views(r@) == units_with_token(self.units.sq(), token_symbol@),
    {
        let n = self.units.len();
        let mut r: Vec<&CanisterRecord> = Vec::new();
        let mut i: usize = 0;
        proof {
            assert(self.units.sq().take(0) =~= Seq::<CanisterRecordView>::empty());
            assert(ref_views(r@) =~= units_with_token(self.units.sq().take(0), token_symbol@));
        }
        while i < n
            invariant
                n == self.units.sq().len(),
                i <= n,
                ref_views(r@) == units_with_token(self.units.sq().take(i as int), token_symbol@),
            decreases n - i,
        {
            let c = self.units.nth(i);
            proof {
                assert(self.units.sq().take(i + 1).drop_last() =~= self.units.sq().take(i as int));
                assert(self.units.sq().take(i + 1).last() == self.units.sq()[i as int]);
            }
            if c.is_active && token_list_has_symbol(&c.supported_tokens, token_symbol) {
                r.push(c);
            }
            proof {
                assert(ref_views(r@) =~= units_with_token(self.units.sq().take(i + 1), token_symbol@));
            }
            i += 1;
        }
        proof {
            assert(self.units.sq().take(n as int) =~= self.units.sq());
        }
        r
    }

    pub fn get_factory_statistics(&self) -> (r: FactoryStats)
        ensures
            r == self.stats,
    {
        self.stats
    }

    /// Every unit record, for the admin; anyone else sees nothing.
    pub fn admin_get_all_canister_records(&self, caller: &Principal) -> (r: Vec<&CanisterRecord>)
        ensures
            caller@ == self.admin@ ==> ref_views(r@) == self.units.sq(),
            caller@ != self.admin@ ==> r@.len() == 0,
    {
        if !self.is_admin(caller) {
            return Vec::new();
        }
        self.units.all()
    }

    /// Rewrites one owner's index entry so that `canister_id` no longer
    /// appears in it; an owner without an entry keeps none.
    fn drop_unit_from_owner(&mut self, owner_key: &String, canister_id: &Principal)
        requires
            old(self).wf(),
        ensures
            final(self).wf(),
            final(self).owners.m() == (if old(self).owners.m().contains_key(owner_key@) {
                old(self).owners.m().insert(
                    owner_key@,
                    OwnerUnitsView {
                        owner: owner_key@,
                        units: remove_unit(old(self).owners.m()[owner_key@].units, canister_id@),
                    },
                )
            } else {
                old(self).owners.m()
            }),
            final(self).units == old(self).units,
            final(self).stats == old(self).stats,
            final(self).next_canister_version == old(self).next_canister_version,
            final(self).stored_wasm == old(self).stored_wasm,
            final(self).embedded_wasm == old(self).embedded_wasm,
            final(self).admin == old(self).admin,
    {
        match self.owners.remove(owner_key) {
            Some(ou) => {
                proof {
                    old(self).owners.lemma_filed_under_own_key(owner_key@);
                }
                let ghost before = ou@.units;
                let mut kept: Vec<Principal> = Vec::new();
                let n = ou.units.len();
                let mut i: usize = 0;
                proof {
                    assert(before.take(0) =~= Seq::<Seq<char>>::empty());
                    assert(principals_view(kept@) =~= remove_unit(before.take(0), canister_id@));
                }
                while i < n
                    invariant
                        n == ou.units@.len(),
                        before == principals_view(ou.units@),
                        i <= n,
                        principals_view(kept@) == remove_unit(before.take(i as int), canister_id@),
                    decreases n - i,
                {
                    proof {
                        assert(before.take(i + 1).drop_last() =~= before.take(i as int));
                        assert(before.take(i + 1).last() == before[i as int]);
                    }
                    if !ou.units[i].eq_p(canister_id) {
                        kept.push(ou.units[i].clone());
                    }
                    proof {
                        assert(principals_view(kept@) =~= remove_unit(
                            before.take(i + 1),
                            canister_id@,
                        ));
                    }
                    i += 1;
                }
                proof {
                    assert(before.take(n as int) =~= before);
                }
                let replacement = OwnerUnits { owner: ou.owner, units: kept };
                self.owners.insert(replacement);
                proof {
                    assert(self.owners.m() =~= old(self).owners.m().insert(
                        owner_key@,
                        OwnerUnitsView {
                            owner: owner_key@,
                            units: remove_unit(
                                old(self).owners.m()[owner_key@].units,
                                canister_id@,
                            ),
                        },
                    ));
                }
            },
            None => {
                proof {
                    assert(remove_unit(Seq::<Seq<char>>::empty(), canister_id@)
                        =~= Seq::<Seq<char>>::empty());
                }
            },
        }
    }

    /// Strikes a unit from the registry: the record leaves the table,
    /// the owner's index entry drops it, and the aggregate counters go
    /// down without ever passing below zero.
    pub fn admin_remove_canister_record(&mut self, canister_id: &Principal, caller: &Principal)
        -> (r: Result<(), String>)
        requires
            old(self).wf(),
        ensures
            final(self).wf(),
            r is Ok <==> (caller@ == old(self).admin@ && old(self).units.m().contains_key(
                canister_id@,
            )),
            r is Ok ==> {
                let rec = old(self).units.m()[canister_id@];
                &&& final(self).units.m() == old(self).units.m().remove(canister_id@)
                &&& owner_units_of(final(self), rec.owner) == remove_unit(
                    owner_units_of(old(self), rec.owner),
                    canister_id@,
                )
                &&& (forall|o: Seq<char>|
                    o != rec.owner ==> owner_units_of(final(self), o) == owner_units_of(
                        old(self),
                        o,
                    ))
                &&& final(self).stats.total_canisters == (if old(self).stats.total_canisters > 0 {
                    old(self).stats.total_canisters - 1
                } else {
                    0int
                })
                &&& final(self).stats.active_canisters == (if rec.is_active && old(
                    self,
                ).stats.active_canisters > 0 {
                    old(self).stats.active_canisters - 1
                } else {
                    old(self).stats.active_canisters as int
                })
                &&& final(self).stats.total_users == old(self).stats.total_users
                &&& final(self).stats.current_version == old(self).stats.current_version
            },
            r is Err ==> {
                &&& final(self).units.m() == old(self).units.m()
                &&& final(self).owners.m() == old(self).owners.m()
                &&& final(self).stats == old(self).stats
            },
            final(self).next_canister_version == old(self).next_canister_version,
            final(self).stored_wasm == old(self).stored_wasm,
            final(self).embedded_wasm == old(self).embedded_wasm,
            final(self).admin == old(self).admin,
    {
        if !self.is_admin(caller) {
            return Err(String::from_str("Only admin can remove canister records"));
        }
        let rec = match self.units.remove(&canister_id.text) {
            Some(rec) => rec,
            None => {
                return Err(String::from_str("Canister record not found"));
            },
        };
        self.drop_unit_from_owner(&rec.owner.text, canister_id);
        let mut stats = self.stats;
        if stats.total_canisters > 0 {
            stats.total_canisters = stats.total_canisters - 1;
        }
        if rec.is_active && stats.active_canisters > 0 {
            stats.active_canisters = stats.active_canisters - 1;
        }
        self.stats = stats;
        Ok(())
    }

    /// Hands a unit to a new owner: the record is rewritten, the unit
    /// moves from the old owner's index entry to the new owner's, and a
    /// first-time owner is counted as a new user.
    pub fn admin_transfer_canister_ownership(
        &mut self,
        canister_id: &Principal,
        new_owner: Principal,
        caller: &Principal,
        now: u64,
    ) -> (r: Result<(), String>)
        requires
            old(self).wf(),
            old(self).stats.total_users < u64::MAX,
        ensures
            final(self).wf(),
            r is Ok <==> (caller@ == old(self).admin@ && new_owner@ != crate::principal::anonymous_text()
                && old(self).units.m().contains_key(canister_id@)),
            r is Ok ==> {
                let rec = old(self).units.m()[canister_id@];
                let moved = CanisterRecordView { owner: new_owner@, last_updated: now, ..rec };
                let stripped = remove_unit(owner_units_of(old(self), rec.owner), canister_id@);
                &&& final(self).units.m() == old(self).units.m().insert(canister_id@, moved)
                &&& (if new_owner@ == rec.owner {
                    owner_units_of(final(self), new_owner@) == stripped.push(canister_id@)
                } else {
                    owner_units_of(final(self), rec.owner) == stripped && owner_units_of(
                        final(self),
                        new_owner@,
                    ) == owner_units_of(old(self), new_owner@).push(canister_id@)
                })
                &&& (forall|o: Seq<char>|
                    o != rec.owner && o != new_owner@ ==> owner_units_of(final(self), o)
                        == owner_units_of(old(self), o))
                &&& final(self).stats.total_users == (if old(self).owners.m().contains_key(
                    new_owner@,
                ) {
                    old(self).stats.total_users as int
                } else {
                    old(self).stats.total_users + 1
                })
                &&& final(self).stats.total_canisters == old(self).stats.total_canisters
                &&& final(self).stats.active_canisters == old(self).stats.active_canisters
            },
            r is Err ==> {
                &&& final(self).units.m() == old(self).units.m()
                &&& final(self).owners.m() == old(self).owners.m()
                &&& final(self).stats == old(self).stats
            },
            final(self).next_canister_version == old(self).next_canister_version,
            final(self).stored_wasm == old(self).stored_wasm,
            final(self).embedded_wasm == old(self).embedded_wasm,
            final(self).admin == old(self).admin,
    {
        if !self.is_admin(caller) {
            return Err(String::from_str("Only admin can transfer canister ownership"));
        }
        if new_owner.is_anonymous() {
            return Err(String::from_str("Cannot transfer ownership to anonymous principal"));
        }
        let mut rec = match self.units.remove(&canister_id.text) {
            Some(rec) => rec,
            None => {
                return Err(String::from_str("Canister record not found"));
            },
        };
        proof {
            old(self).units.lemma_filed_under_own_key(canister_id@);
        }
        let old_owner_key = rec.owner.text.clone();
        rec.owner = new_owner.clone();
        rec.last_updated = now;
        self.units.insert(rec);
        self.drop_unit_from_owner(&old_owner_key, canister_id);
        proof {
            self.owners.lemma_filed_under_own_key(new_owner@);
        }
        match self.owners.remove(&new_owner.text) {
            Some(mut ou) => {
                let ghost mid_units = ou@.units;
                ou.units.push(canister_id.clone());
                proof {
                    assert(ou@.units =~= mid_units.push(canister_id@));
                }
                self.owners.insert(ou);
            },
            None => {
                let mut units: Vec<Principal> = Vec::new();
                units.push(canister_id.clone());
                let ou = OwnerUnits { owner: new_owner, units };
                proof {
                    assert(ou@.units =~= Seq::<Seq<char>>::empty().push(ou.units@[0]@));
                }
                self.owners.insert(ou);
                let mut stats = self.stats;
                stats.total_users = stats.total_users + 1;
                self.stats = stats;
            },
        }
        Ok(())
    }

    /// Notes a completed in-place upgrade: the unit's version steps up
    /// and its timestamp is refreshed.
    pub fn record_upgrade(&mut self, canister_id: &Principal, now: u64) -> (r: bool)
        requires
            old(self).wf(),
        ensures
            final(self).wf(),
            r == old(self).units.m().contains_key(canister_id@),
            r ==> {
                let rec = old(self).units.m()[canister_id@];
                let bumped = CanisterRecordView {
                    version: (if rec.version == u64::MAX {
                        u64::MAX
                    } else {
                        (rec.version + 1) as u64
                    }),
                    last_updated: now,
                    ..rec
                };
                final(self).units.m() == old(self).units.m().insert(canister_id@, bumped)
            },
            !r ==> final(self).units.m() == old(self).units.m(),
            final(self).owners == old(self).owners,
            final(self).stats == old(self).stats,
            final(self).next_canister_version == old(self).next_canister_version,
            final(self).stored_wasm == old(self).stored_wasm,
            final(self).embedded_wasm == old(self).embedded_wasm,
            final(self).admin == old(self).admin,
    {
        match self.units.remove(&canister_id.text) {
            Some(mut rec) => {
                proof {
                    old(self).units.lemma_filed_under_own_key(canister_id@);
                }
                if rec.version < u64::MAX {
                    rec.version = rec.version + 1;
                }
                rec.last_updated = now;
                self.units.insert(rec);
                true
            },
            None => false,
        }
    }
}

/// `s` with every occurrence of unit id `u` struck out.
pub open spec fn remove_unit(s: Seq<Seq<char>>, u: Seq<char>) -> Seq<Seq<char>>
    decreases s.len(),
{
    if s.len() == 0 {
        Seq::<Seq<char>>::empty()
    } else {
        let rest = remove_unit(s.drop_last(), u);
        if s.last() == u {
            rest
        } else {
            rest.push(s.last())
        }
    }
}

/// Whether some entry of a token list carries `symbol`.
pub fn token_list_has_symbol(tokens: &Vec<TokenConfig>, symbol: &String) -> (r: bool)
    ensures
        r == has_token(tokens_view(tokens@), symbol@),
{
    let n = tokens.len();
    let mut i: usize = 0;
    while i < n
        invariant
            n == tokens@.len(),
            i <= n,
            forall|j: int| 0 <= j < i ==> (#[trigger] tokens_view(tokens@)[j]).symbol != symbol@,
        decreases n - i,
    {
        if tokens[i].symbol.eq(symbol) {
            proof {
                assert(tokens_view(tokens@)[i as int].symbol == symbol@);
            }
            return true;
        }
        i += 1;
    }
    false
}

} // verus!
