use vstd::prelude::*;
use vstd::string::StringExecFns;

use crate::config::{config_valid, validate_canister_config, UserCanisterConfig};
use crate::principal::{anonymous_text, Principal};
use crate::registry::{
    owner_units_of, stored_wasm_view, CanisterRecord, CanisterRecordView, FactoryState, OwnerUnitsView,
};
use crate::util::ref_views;

verus! {

/// The fixed resource budget spent to create one unit and install its
/// package; it does not depend on the submitted configuration.
pub const CYCLES_FOR_CREATION: u64 = 4_000_000_000_000;

/// The number of active units one owner may hold at most.
pub const MAX_UNITS_PER_OWNER: usize = 5;

/// How a remote call came back rejected; mirrors the host's rejection codes.
#[derive(Clone, Copy, PartialEq, Eq, Structural, Debug)]
pub enum RejectKind {
    NoError,
    SysFatal,
    SysTransient,
    DestinationInvalid,
    CanisterReject,
    CanisterError,
    Unknown,
}

/// Why a remote call failed, classified for the caller.
#[derive(Clone, Debug, PartialEq, Eq)]
pub enum Reason {
    OutOfCycles,
    CanisterError(String),
    Rejected(String),
    TransientInternalError(String),
    InternalError(String),
}

/// A failed remote call: the method that was called and why it failed.
#[derive(Clone, Debug, PartialEq, Eq)]
pub struct CallError {
    pub method: String,
    pub reason: Reason,
}

impl Reason {
    /// Classifies a rejection: transient faults, errors raised by the
    /// peer, explicit refusals, and everything else as internal.
    pub fn from_reject(reject_code: RejectKind, reject_message: String) -> (r: Self)
        ensures
            r == match reject_code {
                RejectKind::SysTransient => Reason::TransientInternalError(reject_message),
                RejectKind::CanisterError => Reason::CanisterError(reject_message),
                RejectKind::CanisterReject => Reason::Rejected(reject_message),
                _ => Reason::InternalError(reject_message),
            },
    {
        match reject_code {
            RejectKind::SysTransient => Reason::TransientInternalError(reject_message),
            RejectKind::CanisterError => Reason::CanisterError(reject_message),
            RejectKind::CanisterReject => Reason::Rejected(reject_message),
            _ => Reason::InternalError(reject_message),
        }
    }
}

/// The budget gate before any remote call: a call that cannot be paid
/// for is refused without being attempted.
pub fn check_cycles(balance: u128, payment: u64, method: String) -> (r: Result<(), CallError>)
    ensures
        r is Ok <==> balance >= payment as u128,
        r is Err ==> (r matches Err(e) && e.method@ == method@ && e.reason
            == Reason::OutOfCycles),
{
    if balance < payment as u128 {
        Err(CallError { method, reason: Reason::OutOfCycles })
    } else {
        Ok(())
    }
}

/// The package bytes a deployment would install: the compiled-in
/// package when there is one, else the runtime-set package, else none.
pub open spec fn resolved_wasm(s: &FactoryState) -> Seq<u8> {
    if s.embedded_wasm@.len() > 0 {
        s.embedded_wasm@
    } else {
        match stored_wasm_view(s) {
            Option::Some(w) => w,
            Option::None => Seq::<u8>::empty(),
        }
    }
}

/// A deployment request passes when the caller is named, holds fewer
/// than the unit quota, submits a valid configuration, and a package
/// is available to install.
pub open spec fn deployment_allowed(
    s: &FactoryState,
    config: crate::config::UserCanisterConfigView,
    caller: Seq<char>,
) -> bool {
    &&& caller != anonymous_text()
    &&& owner_units_of(s, caller).len() < MAX_UNITS_PER_OWNER
    &&& config_valid(config)
    &&& resolved_wasm(s).len() > 0
}

/// An owner already holding the unit quota is refused another
/// provisioning, whatever the submitted configuration.
pub proof fn lemma_unit_quota_refused(
    s: &FactoryState,
    config: crate::config::UserCanisterConfigView,
    caller: Seq<char>,
)
    requires
        owner_units_of(s, caller).len() >= MAX_UNITS_PER_OWNER,
    ensures
        !deployment_allowed(s, config, caller),
{
}

impl FactoryState {
    /// The package bytes used for installs, resolved from the two tiers.
    pub fn user_canister_wasm(&self) -> (r: Vec<u8>)
        ensures
            r@ == resolved_wasm(self),
    {
        if self.embedded_wasm.len() > 0 {
            crate::util::clone_bytes(&self.embedded_wasm)
        } else {
            match &self.stored_wasm {
                Some(w) => crate::util::clone_bytes(w),
                None => {
                    let r: Vec<u8> = Vec::new();
                    proof {
                        assert(r@ =~= Seq::<u8>::empty());
                    }
                    r
                },
            }
        }
    }

    /// Gatekeeper of provisioning: accepts a request exactly when
    /// [`deployment_allowed`] holds, handing back the package to install.
    pub fn prepare_deployment(&self, config: &UserCanisterConfig, caller: &Principal) -> (r:
        Result<Vec<u8>, String>)
        requires
            self.wf(),
        ensures
            r is Ok <==> deployment_allowed(self, config@, caller@),
            r matches Ok(w) ==> w@ == resolved_wasm(self),
    {
        if caller.is_anonymous() {
            return Err(String::from_str("Cannot deploy anonymously"));
        }
        let existing = self.get_owner_canisters(caller);
        if existing.len() >= MAX_UNITS_PER_OWNER {
            return Err(String::from_str("Maximum number of canisters reached (5)"));
        }
        if let Err(e) = validate_canister_config(config) {
            return Err(e);
        }
        let wasm = self.user_canister_wasm();
        if wasm.len() == 0 {
            return Err(String::from_str("User canister WASM not available"));
        }
        Ok(wasm)
    }

    /// Builds the registry record for a fresh unit, spending the next
    /// version number.
    pub fn create_canister_record(
        &mut self,
        canister_id: Principal,
        owner: Principal,
        config: &UserCanisterConfig,
        now: u64,
    ) -> (rec: CanisterRecord)
        requires
            old(self).next_canister_version < u64::MAX,
        ensures
            rec@ == (CanisterRecordView {
                id: canister_id@,
                owner: owner@,
                name: config@.name,
                description: config@.description,
                version: old(self).next_canister_version,
                created_at: now,
                last_updated: now,
                is_active: true,
                supported_tokens: config@.supported_tokens,
            }),
            final(self).next_canister_version == old(self).next_canister_version + 1,
            final(self).units == old(self).units,
            final(self).owners == old(self).owners,
            final(self).stats == old(self).stats,
            final(self).stored_wasm == old(self).stored_wasm,
            final(self).embedded_wasm == old(self).embedded_wasm,
            final(self).admin == old(self).admin,
    {
        let version = self.get_next_canister_version();
        CanisterRecord {
            id: canister_id,
            owner,
            name: config.name.clone(),
            description: config.description.clone(),
            version,
            created_at: now,
            last_updated: now,
            is_active: true,
            supported_tokens: crate::config::clone_tokens(&config.supported_tokens),
        }
    }

    /// Records a successful deployment: the unit record is filed, the
    /// owner's index gains the unit, and the aggregate counters step up.
    /// Nothing here runs before the remote installation has succeeded.
    pub fn finalize_deployment(
        &mut self,
        canister_id: Principal,
        caller: Principal,
        config: &UserCanisterConfig,
        now: u64,
    )
        requires
            old(self).wf(),
            old(self).next_canister_version < u64::MAX,
            old(self).stats.total_canisters < u64::MAX,
            old(self).stats.active_canisters < u64::MAX,
        ensures
            final(self).wf(),
            final(self).units.m() == old(self).units.m().insert(
                canister_id@,
                CanisterRecordView {
                    id: canister_id@,
                    owner: caller@,
                    name: config@.name,
                    description: config@.description,
                    version: old(self).next_canister_version,
                    created_at: now,
                    last_updated: now,
                    is_active: true,
                    supported_tokens: config@.supported_tokens,
                },
            ),
            final(self).owners.m() == old(self).owners.m().insert(
                caller@,
                OwnerUnitsView {
                    owner: caller@,
                    units: owner_units_of(old(self), caller@).push(canister_id@),
                },
            ),
            final(self).stats.total_canisters == old(self).stats.total_canisters + 1,
            final(self).stats.active_canisters == old(self).stats.active_canisters + 1,
            final(self).stats.total_users == old(self).stats.total_users,
            final(self).stats.current_version == old(self).stats.current_version,
            final(self).next_canister_version == old(self).next_canister_version + 1,
            final(self).stored_wasm == old(self).stored_wasm,
            final(self).embedded_wasm == old(self).embedded_wasm,
            final(self).admin == old(self).admin,
    {
        let unit = canister_id.clone();
        let owner_for_index = caller.clone();
        let record = self.create_canister_record(canister_id, caller, config, now);
        self.add_user_canister(record);
        self.add_canister_to_owner(owner_for_index, unit);
        self.increment_total_canisters();
    }

    /// Looks a unit up by its id.
    pub fn get_canister_info(&self, canister_id: &Principal) -> (r: Option<&CanisterRecord>)
        requires
            self.wf(),
        ensures
            match r {
                Some(c) => self.units.m().contains_key(canister_id@)
                    && c@ == self.units.m()[canister_id@],
                None => !self.units.m().contains_key(canister_id@),
            },
    {
        self.get_user_canister(canister_id)
    }

    /// The records of the units filed under `owner`, in index order;
    /// an id the registry no longer knows is skipped.
    pub fn get_user_canisters(&self, owner: &Principal) -> (r: Vec<&CanisterRecord>)
        requires
            self.wf(),
        ensures
            ref_views(r@) == owner_records(self, owner_units_of(self, owner@)),
    {
        let mut r: Vec<&CanisterRecord> = Vec::new();
        match self.owners.get(&owner.text) {
            Some(ou) => {
                let ghost ids = ou@.units;
                let n = ou.units.len();
                let mut i: usize = 0;
                proof {
                    assert(ids.take(0) =~= Seq::<Seq<char>>::empty());
                    assert(ref_views(r@) =~= owner_records(self, ids.take(0)));
                }
                while i < n
                    invariant
                        self.wf(),
                        n == ou.units@.len(),
                        ids == crate::principal::principals_view(ou.units@),
                        i <= n,
                        ref_views(r@) == owner_records(self, ids.take(i as int)),
                    decreases n - i,
                {
                    proof {
                        assert(ids.take(i + 1).drop_last() =~= ids.take(i as int));
                        assert(ids.take(i + 1).last() == ids[i as int]);
                    }
                    match self.units.get(&ou.units[i].text) {
                        Some(c) => {
                            r.push(c);
                        },
                        None => {},
                    }
                    proof {
                        assert(ref_views(r@) =~= owner_records(self, ids.take(i + 1)));
                    }
                    i += 1;
                }
                proof {
                    assert(ids.take(n as int) =~= ids);
                    assert(ids =~= owner_units_of(self, owner@));
                }
            },
            None => {
                proof {
                    assert(owner_units_of(self, owner@) =~= Seq::<Seq<char>>::empty());
                    assert(ref_views(r@) =~= owner_records(
                        self,
                        owner_units_of(self, owner@),
                    ));
                }
            },
        }
        r
    }

    /// Stores a new unit package; only the admin may.
    pub fn admin_set_user_canister_wasm(&mut self, wasm: Vec<u8>, caller: &Principal) -> (r:
        Result<(), String>)
        ensures
            r is Ok <==> caller@ == old(self).admin@,
            r is Ok ==> stored_wasm_view(final(self)) == Some(wasm@),
            r is Err ==> final(self).stored_wasm == old(self).stored_wasm,
            final(self).units == old(self).units,
            final(self).owners == old(self).owners,
            final(self).stats == old(self).stats,
            final(self).next_canister_version == old(self).next_canister_version,
            final(self).embedded_wasm == old(self).embedded_wasm,
            final(self).admin == old(self).admin,
    {
        if !self.is_admin(caller) {
            return Err(String::from_str("Only admin can set WASM"));
        }
        self.set_user_canister_wasm(wasm);
        Ok(())
    }

    /// Whether an admin-driven in-place upgrade of `canister_id` may
    /// proceed: the caller must be the admin, the unit must be on
    /// record, and a package must be available.
    pub fn check_upgrade_allowed(&self, canister_id: &Principal, caller: &Principal) -> (r:
        Result<(), String>)
        requires
            self.wf(),
        ensures
            r is Ok <==> (caller@ == self.admin@ && self.units.m().contains_key(canister_id@)
                && resolved_wasm(self).len() > 0),
    {
        if !self.is_admin(caller) {
            return Err(String::from_str("Only admin can upgrade canisters"));
        }
        if self.get_user_canister(canister_id).is_none() {
            return Err(String::from_str("Canister not found in factory records"));
        }
        let wasm = self.user_canister_wasm();
        if wasm.len() == 0 {
            return Err(String::from_str("User canister WASM not available"));
        }
        Ok(())
    }
}

/// The records the registry holds for a list of unit ids, in order,
/// skipping ids it no longer knows.
pub open spec fn owner_records(s: &FactoryState, ids: Seq<Seq<char>>) -> Seq<CanisterRecordView>
    decreases ids.len(),
{
    if ids.len() == 0 {
        Seq::<CanisterRecordView>::empty()
    } else {
        let rest = owner_records(s, ids.drop_last());
        if s.units.m().contains_key(ids.last()) {
            rest.push(s.units.m()[ids.last()])
        } else {
            rest
        }
    }
}

} // verus!
