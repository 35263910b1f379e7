use payment_core::config::{validate_canister_config, TokenConfig, UserCanisterConfig};
use payment_core::factory::{check_cycles, Reason, RejectKind, CYCLES_FOR_CREATION};
use payment_core::principal::Principal;
use payment_core::registry::FactoryState;

fn p(text: &str) -> Principal {
    Principal::from_text(text.to_string())
}

fn create_test_token_config() -> TokenConfig {
    TokenConfig {
        symbol: "ckBTC".to_string(),
        name: "Chain Key Bitcoin".to_string(),
        decimals: 8,
        canister_id: p("mxzaz-hqaaa-aaaar-qaada-cai"),
        fee: 10,
        logo: None,
        is_active: true,
    }
}

fn create_test_config() -> UserCanisterConfig {
    UserCanisterConfig {
        name: "Test Payment System".to_string(),
        description: "Test description".to_string(),
        supported_tokens: vec![create_test_token_config()],
        webhook: None,
        merchant_fee: 250,
        auto_withdraw: false,
        withdraw_threshold: None,
        custom_settings: vec![],
    }
}

#[test]
fn test_validate_canister_config_valid() {
    let config = create_test_config();
    assert!(validate_canister_config(&config).is_ok());
}

#[test]
fn test_validate_canister_config_empty_name() {
    let mut config = create_test_config();
    config.name = "".to_string();
    assert!(validate_canister_config(&config).is_err());
}

#[test]
fn test_validate_canister_config_long_name() {
    let mut config = create_test_config();
    config.name = "a".repeat(51);
    assert!(validate_canister_config(&config).is_err());
}

#[test]
fn test_validate_canister_config_no_tokens() {
    let mut config = create_test_config();
    config.supported_tokens = vec![];
    assert!(validate_canister_config(&config).is_err());
}

#[test]
fn test_validate_canister_config_high_fee() {
    let mut config = create_test_config();
    config.merchant_fee = 1001;
    assert!(validate_canister_config(&config).is_err());
}

fn fresh_factory() -> FactoryState {
    FactoryState::new(p("admin-principal"), vec![1u8, 2, 3])
}

#[test]
fn provisioning_respects_unit_quota() {
    let mut f = fresh_factory();
    let owner = p("alice");
    let config = create_test_config();
    for k in 0..5u64 {
        let wasm = f
            .prepare_deployment(&config, &owner)
            .expect("a valid request under the quota must pass");
        assert_eq!(wasm, vec![1u8, 2, 3]);
        let unit = p(&format!("unit-{}", k));
        f.finalize_deployment(unit, owner.clone(), &config, 100 + k);
    }
    let stats = f.get_factory_statistics();
    assert_eq!(stats.total_canisters, 5);
    assert_eq!(stats.active_canisters, 5);
    assert_eq!(f.get_owner_canisters(&owner).len(), 5);
    assert_eq!(f.get_user_canisters(&owner).len(), 5);
    let sixth = f.prepare_deployment(&config, &owner);
    assert_eq!(
        sixth.unwrap_err(),
        "Maximum number of canisters reached (5)".to_string()
    );
}

#[test]
fn anonymous_caller_cannot_provision() {
    let f = fresh_factory();
    let config = create_test_config();
    let r = f.prepare_deployment(&config, &Principal::anonymous());
    assert_eq!(r.unwrap_err(), "Cannot deploy anonymously".to_string());
}

#[test]
fn provisioning_needs_a_package() {
    let mut f = FactoryState::new(p("admin-principal"), Vec::new());
    let config = create_test_config();
    let owner = p("alice");
    let r = f.prepare_deployment(&config, &owner);
    assert_eq!(r.unwrap_err(), "User canister WASM not available".to_string());
    // a runtime-set package fills the gap
    f.admin_set_user_canister_wasm(vec![9u8], &p("admin-principal"))
        .expect("the admin may store a package");
    assert_eq!(f.user_canister_wasm(), vec![9u8]);
    assert!(f.prepare_deployment(&config, &owner).is_ok());
}

#[test]
fn removing_a_unit_updates_index_and_counters() {
    let mut f = fresh_factory();
    let owner = p("alice");
    let config = create_test_config();
    let unit = p("unit-1");
    f.prepare_deployment(&config, &owner).unwrap();
    f.finalize_deployment(unit.clone(), owner.clone(), &config, 7);
    assert_eq!(f.get_factory_statistics().total_canisters, 1);
    assert_eq!(f.get_owner_canisters(&owner).len(), 1);

    let admin = p("admin-principal");
    f.admin_remove_canister_record(&unit, &admin)
        .expect("the admin may remove a record");
    assert!(f.get_user_canister(&unit).is_none());
    assert_eq!(f.get_owner_canisters(&owner).len(), 0);
    let stats = f.get_factory_statistics();
    assert_eq!(stats.total_canisters, 0);
    assert_eq!(stats.active_canisters, 0);

    // a second removal fails and the counters never pass below zero
    assert!(f.admin_remove_canister_record(&unit, &admin).is_err());
    let stats = f.get_factory_statistics();
    assert_eq!(stats.total_canisters, 0);
    assert_eq!(stats.active_canisters, 0);
}

#[test]
fn only_admin_removes_records() {
    let mut f = fresh_factory();
    let owner = p("alice");
    let config = create_test_config();
    let unit = p("unit-1");
    f.finalize_deployment(unit.clone(), owner.clone(), &config, 7);
    assert!(f.admin_remove_canister_record(&unit, &owner).is_err());
    assert!(f.get_user_canister(&unit).is_some());
}

#[test]
fn ownership_transfer_moves_the_unit() {
    let mut f = fresh_factory();
    let (alice, bob) = (p("alice"), p("bob"));
    let config = create_test_config();
    let unit = p("unit-1");
    f.finalize_deployment(unit.clone(), alice.clone(), &config, 7);
    let admin = p("admin-principal");
    f.admin_transfer_canister_ownership(&unit, bob.clone(), &admin, 9)
        .expect("the admin may transfer ownership");
    assert_eq!(f.get_owner_canisters(&alice).len(), 0);
    assert_eq!(f.get_owner_canisters(&bob).len(), 1);
    let rec = f.get_user_canister(&unit).unwrap();
    assert_eq!(rec.owner.text, "bob".to_string());
    assert_eq!(rec.last_updated, 9);
    // bob was a first-time owner
    assert_eq!(f.get_factory_statistics().total_users, 1);
    // never to the anonymous identity
    assert!(f
        .admin_transfer_canister_ownership(&unit, Principal::anonymous(), &admin, 10)
        .is_err());
}

#[test]
fn upgrade_bumps_version_and_timestamp() {
    let mut f = fresh_factory();
    let owner = p("alice");
    let config = create_test_config();
    let unit = p("unit-1");
    f.finalize_deployment(unit.clone(), owner.clone(), &config, 7);
    let v0 = f.get_user_canister(&unit).unwrap().version;
    assert!(f.check_upgrade_allowed(&unit, &p("admin-principal")).is_ok());
    assert!(f.record_upgrade(&unit, 55));
    let rec = f.get_user_canister(&unit).unwrap();
    assert_eq!(rec.version, v0 + 1);
    assert_eq!(rec.last_updated, 55);
    assert!(!f.record_upgrade(&p("unknown"), 56));
}

#[test]
fn find_units_by_token_symbol() {
    let mut f = fresh_factory();
    let owner = p("alice");
    let config = create_test_config();
    f.finalize_deployment(p("unit-1"), owner.clone(), &config, 7);
    let found = f.find_canisters_by_token_symbol(&"ckBTC".to_string());
    assert_eq!(found.len(), 1);
    let none = f.find_canisters_by_token_symbol(&"ICP".to_string());
    assert_eq!(none.len(), 0);
    assert_eq!(f.get_active_canisters().len(), 1);
}

#[test]
fn cycle_budget_is_checked_before_the_call() {
    assert!(check_cycles(CYCLES_FOR_CREATION as u128, CYCLES_FOR_CREATION, "create".to_string())
        .is_ok());
    let short = check_cycles(10, CYCLES_FOR_CREATION, "create".to_string());
    match short {
        Err(e) => {
            assert_eq!(e.method, "create".to_string());
            assert_eq!(e.reason, Reason::OutOfCycles);
        }
        Ok(_) => panic!("a short budget must be refused"),
    }
}

#[test]
fn rejections_are_classified() {
    let r = Reason::from_reject(RejectKind::SysTransient, "busy".to_string());
    assert_eq!(r, Reason::TransientInternalError("busy".to_string()));
    let r = Reason::from_reject(RejectKind::CanisterReject, "no".to_string());
    assert_eq!(r, Reason::Rejected("no".to_string()));
    let r = Reason::from_reject(RejectKind::CanisterError, "boom".to_string());
    assert_eq!(r, Reason::CanisterError("boom".to_string()));
    let r = Reason::from_reject(RejectKind::Unknown, "odd".to_string());
    assert_eq!(r, Reason::InternalError("odd".to_string()));
}

#[test]
fn version_counter_is_handed_out_in_order() {
    let mut f = fresh_factory();
    assert_eq!(f.get_next_canister_version(), 1);
    assert_eq!(f.get_next_canister_version(), 2);
    f.increment_total_canisters();
    assert_eq!(f.get_factory_statistics().total_canisters, 1);
    assert!(f.get_user_canister_wasm().is_none());
}
