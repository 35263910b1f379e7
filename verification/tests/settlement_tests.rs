use payment_core::config::{TokenConfig, UserCanisterConfig};
use payment_core::coupon::{compute_discount, CouponType, DiscountCoupon};
use payment_core::principal::Principal;
use payment_core::settlement::{
    describe_transfer_error, InvoiceStatus, PaymentRequest, TransactionStatus, TransferError,
};
use payment_core::tenant::TenantState;

fn p(text: &str) -> Principal {
    Principal::from_text(text.to_string())
}

fn token(symbol: &str) -> TokenConfig {
    TokenConfig {
        symbol: symbol.to_string(),
        name: format!("{} token", symbol),
        decimals: 8,
        canister_id: p("ledger-1"),
        fee: 10,
        logo: None,
        is_active: true,
    }
}

fn tenant(fee_bp: u32) -> TenantState {
    let config = UserCanisterConfig {
        name: "Shop".to_string(),
        description: "A shop".to_string(),
        supported_tokens: vec![token("ckBTC"), token("ICP")],
        webhook: None,
        merchant_fee: fee_bp,
        auto_withdraw: false,
        withdraw_threshold: None,
        custom_settings: vec![],
    };
    TenantState::init(config, p("merchant"), p("admin-principal"))
}

fn request(invoice_id: &str, amount: u64, symbol: &str, coupon: Option<&str>) -> PaymentRequest {
    PaymentRequest {
        invoice_id: invoice_id.to_string(),
        amount,
        token_symbol: symbol.to_string(),
        coupon_code: coupon.map(|c| c.to_string()),
        metadata: vec![],
    }
}

#[test]
fn fee_split_scenario() {
    // invoice of 1000 under a 250 bp fee: fee 25, net 975
    let mut t = tenant(250);
    let inv = t
        .create_invoice(1000, "ckBTC".to_string(), "order".to_string(), vec![], 0)
        .expect("an active token must be accepted");
    assert_eq!(inv.id, "inv_1".to_string());
    assert_eq!(inv.amount, 1000);
    assert_eq!(inv.expires_at, Some(86_400_000_000_000));

    let prepared = t
        .prepare_payment_request(request("inv_1", 1000, "ckBTC", None), &p("payer"), 5)
        .expect("a full payment of an open invoice must pass");
    assert_eq!(prepared.transaction_id, "tx_1".to_string());
    assert_eq!(prepared.merchant_fee, 25);
    assert_eq!(prepared.net_amount, 975);
    assert_eq!(prepared.transfer_amount, 1010);

    let result = t.finish_payment(prepared, Ok(42), 5);
    assert_eq!(result.transaction_id, "tx_1".to_string());
    assert_eq!(result.amount_paid, 1000);
    assert_eq!(result.final_amount, 1000);
    assert_eq!(result.block_index, Some(42));

    assert_eq!(t.get_balance(&"ckBTC".to_string()), 975);
    let inv = t.get_invoice(&"inv_1".to_string()).unwrap();
    assert_eq!(inv.status, InvoiceStatus::Paid);
    let tx = t.get_transaction(&"tx_1".to_string()).unwrap();
    match &tx.status {
        TransactionStatus::Completed => {}
        other => panic!("the stored transaction must be completed, not {:?}", other),
    }
    assert_eq!(tx.block_index, Some(42));
}

#[test]
fn second_payment_of_a_paid_invoice_is_refused() {
    let mut t = tenant(250);
    t.create_invoice(1000, "ckBTC".to_string(), "order".to_string(), vec![], 0)
        .unwrap();
    let prepared = t
        .prepare_payment_request(request("inv_1", 1000, "ckBTC", None), &p("payer"), 5)
        .unwrap();
    t.finish_payment(prepared, Ok(1), 5);
    assert_eq!(t.get_balance(&"ckBTC".to_string()), 975);

    let again = t.prepare_payment_request(request("inv_1", 1000, "ckBTC", None), &p("payer"), 6);
    assert_eq!(again.unwrap_err(), "Invoice already paid".to_string());
    // the balance was credited exactly once
    assert_eq!(t.get_balance(&"ckBTC".to_string()), 975);
}

#[test]
fn failed_transfer_leaves_invoice_open_and_balance_untouched() {
    let mut t = tenant(250);
    t.create_invoice(1000, "ckBTC".to_string(), "order".to_string(), vec![], 0)
        .unwrap();
    let prepared = t
        .prepare_payment_request(request("inv_1", 1000, "ckBTC", None), &p("payer"), 5)
        .unwrap();
    let result = t.finish_payment(prepared, Err("Insufficient funds: balance 3".to_string()), 5);
    assert_eq!(result.block_index, None);
    assert_eq!(t.get_balance(&"ckBTC".to_string()), 0);
    assert_eq!(t.get_invoice(&"inv_1".to_string()).unwrap().status, InvoiceStatus::Created);
    // the failed attempt is still on record
    let tx = t.get_transaction(&"tx_1".to_string()).unwrap();
    match &tx.status {
        TransactionStatus::Failed(m) => {
            assert_eq!(m, &"Insufficient funds: balance 3".to_string())
        }
        other => panic!("the record must show the failure, not {:?}", other),
    }
    // the invoice stays payable
    let retry = t.prepare_payment_request(request("inv_1", 1000, "ckBTC", None), &p("payer"), 6);
    assert!(retry.is_ok());
}

#[test]
fn expired_invoice_and_wrong_token_are_refused() {
    let mut t = tenant(250);
    t.create_invoice(1000, "ckBTC".to_string(), "order".to_string(), vec![], 0)
        .unwrap();
    let too_late = 86_400_000_000_001u64;
    let r = t.prepare_payment_request(request("inv_1", 1000, "ckBTC", None), &p("payer"), too_late);
    assert_eq!(r.unwrap_err(), "Invoice expired".to_string());
    let r = t.prepare_payment_request(request("inv_1", 1000, "ICP", None), &p("payer"), 5);
    assert_eq!(r.unwrap_err(), "Token mismatch".to_string());
    let r = t.prepare_payment_request(request("inv_9", 1000, "ckBTC", None), &p("payer"), 5);
    assert_eq!(r.unwrap_err(), "Invoice not found".to_string());
    let r = t.create_invoice(5, "DOGE".to_string(), "x".to_string(), vec![], 0);
    assert_eq!(r.unwrap_err(), "Token not supported or inactive".to_string());
}

fn coupon(code: &str, kind: CouponType) -> DiscountCoupon {
    DiscountCoupon {
        coupon_id: String::new(),
        code: code.to_string(),
        coupon_type: kind,
        description: "a coupon".to_string(),
        minimum_amount: None,
        applicable_tokens: vec![],
        usage_limit: None,
        used_count: 0,
        expires_at: None,
        is_active: true,
        created_at: 0,
        updated_at: 0,
    }
}

#[test]
fn oversized_fixed_coupon_is_capped_and_payment_refused() {
    // a 2000 cut on a 1500 invoice caps at 1500; the remaining 0 is
    // below the invoice amount, so the payment is refused after the
    // coupon use was already consumed
    let mut t = tenant(250);
    t.create_invoice(1500, "ckBTC".to_string(), "order".to_string(), vec![], 0)
        .unwrap();
    let owner = p("merchant");
    let cid = t
        .coupons
        .create_coupon(coupon("BIGCUT", CouponType::FixedAmount(2000)), &owner, &owner, 0)
        .expect("the owner files a sound coupon");
    let r = t.prepare_payment_request(
        request("inv_1", 1500, "ckBTC", Some("bigcut")),
        &p("payer"),
        5,
    );
    assert_eq!(
        r.unwrap_err(),
        "Payment amount insufficient after discount".to_string()
    );
    // the coupon use is not rolled back
    let c = t.coupons.get_coupon(&cid).unwrap();
    assert_eq!(c.used_count, 1);
    assert_eq!(t.coupons.get_coupon_usage_stats(&cid).unwrap().0, 1);
}

#[test]
fn percentage_coupon_discounts_an_overpayment() {
    let mut t = tenant(250);
    t.create_invoice(1000, "ckBTC".to_string(), "order".to_string(), vec![], 0)
        .unwrap();
    let owner = p("merchant");
    t.coupons
        .create_coupon(coupon("TENOFF", CouponType::Percentage(10)), &owner, &owner, 0)
        .unwrap();
    let prepared = t
        .prepare_payment_request(
            request("inv_1", 1200, "ckBTC", Some("TenOff")),
            &p("payer"),
            5,
        )
        .expect("a discounted overpayment that still covers the invoice passes");
    assert_eq!(prepared.discount_applied, 120);
    assert_eq!(prepared.final_amount, 1080);
    assert_eq!(prepared.merchant_fee, 27);
    assert_eq!(prepared.net_amount, 1053);
    let result = t.finish_payment(prepared, Ok(9), 5);
    assert_eq!(result.discount_applied, 120);
    assert_eq!(t.get_balance(&"ckBTC".to_string()), 1053);
}

#[test]
fn a_bad_coupon_never_aborts_the_payment() {
    let mut t = tenant(0);
    t.create_invoice(100, "ckBTC".to_string(), "order".to_string(), vec![], 0)
        .unwrap();
    let prepared = t
        .prepare_payment_request(
            request("inv_1", 100, "ckBTC", Some("NOSUCH")),
            &p("payer"),
            5,
        )
        .expect("an unknown coupon is logged and ignored");
    assert_eq!(prepared.discount_applied, 0);
    assert_eq!(prepared.final_amount, 100);
}

#[test]
fn discount_formulas() {
    assert_eq!(compute_discount(CouponType::Percentage(10), 1000), 100);
    assert_eq!(compute_discount(CouponType::Percentage(33), 100), 33);
    assert_eq!(compute_discount(CouponType::Percentage(100), 77), 77);
    assert_eq!(compute_discount(CouponType::FixedAmount(2000), 1500), 1500);
    assert_eq!(compute_discount(CouponType::FixedAmount(200), 1500), 200);
    assert_eq!(compute_discount(CouponType::FreeShipping, 1500), 0);
}

#[test]
fn withdraw_only_owner_and_only_covered() {
    let mut t = tenant(0);
    t.create_invoice(500, "ckBTC".to_string(), "order".to_string(), vec![], 0)
        .unwrap();
    let prepared = t
        .prepare_payment_request(request("inv_1", 500, "ckBTC", None), &p("payer"), 5)
        .unwrap();
    t.finish_payment(prepared, Ok(1), 5);
    assert_eq!(t.get_balance(&"ckBTC".to_string()), 500);

    let stranger = p("eve");
    assert!(t.withdraw(&"ckBTC".to_string(), 100, &stranger).is_err());
    let owner = p("merchant");
    assert!(t.withdraw(&"ckBTC".to_string(), 600, &owner).is_err());
    assert_eq!(t.withdraw(&"ckBTC".to_string(), 200, &owner).unwrap(), 200);
    assert_eq!(t.get_balance(&"ckBTC".to_string()), 300);
    let all = t.get_all_balances();
    assert_eq!(all.len(), 1);
    assert_eq!(all[0], ("ckBTC".to_string(), 300));
}

#[test]
fn transfer_errors_are_described() {
    assert_eq!(
        describe_transfer_error(&TransferError::BadFee { expected_fee: 42 }),
        "Bad fee: expected 42".to_string()
    );
    assert_eq!(
        describe_transfer_error(&TransferError::InsufficientFunds { balance: 3 }),
        "Insufficient funds: balance 3".to_string()
    );
    assert_eq!(
        describe_transfer_error(&TransferError::TooOld),
        "Transaction too old".to_string()
    );
    assert_eq!(
        describe_transfer_error(&TransferError::GenericError {
            error_code: 7,
            message: "odd".to_string()
        }),
        "Generic error 7: odd".to_string()
    );
}

#[test]
fn analytics_aggregate_by_token() {
    let mut t = tenant(0);
    t.create_invoice(100, "ckBTC".to_string(), "a".to_string(), vec![], 0)
        .unwrap();
    t.create_invoice(250, "ckBTC".to_string(), "b".to_string(), vec![], 0)
        .unwrap();
    let pr = t
        .prepare_payment_request(request("inv_1", 100, "ckBTC", None), &p("payer"), 1)
        .unwrap();
    t.finish_payment(pr, Ok(1), 1);
    let pr = t
        .prepare_payment_request(request("inv_2", 250, "ckBTC", None), &p("payer"), 2)
        .unwrap();
    t.finish_payment(pr, Ok(2), 2);
    // one failed attempt on a third invoice
    t.create_invoice(40, "ckBTC".to_string(), "c".to_string(), vec![], 0)
        .unwrap();
    let pr = t
        .prepare_payment_request(request("inv_3", 40, "ckBTC", None), &p("payer"), 3)
        .unwrap();
    t.finish_payment(pr, Err("refused".to_string()), 3);

    let a = t.get_enhanced_analytics();
    assert_eq!(a.total_transactions, 3);
    assert_eq!(a.completed_transactions, 2);
    assert_eq!(a.total_volume, vec![("ckBTC".to_string(), 350)]);
    assert_eq!(a.average_amount, vec![("ckBTC".to_string(), 175)]);
    assert_eq!(a.top_tokens, vec!["ckBTC".to_string()]);

    let methods = t.get_payment_method_analytics();
    assert_eq!(methods, vec![("TransferFrom".to_string(), 2)]);

    let page = t.get_transaction_history(2, 1);
    assert_eq!(page.len(), 2);
    assert_eq!(page[0].id, "tx_2".to_string());
}

#[test]
fn transaction_metadata_carries_the_amount_trail() {
    let mut t = tenant(0);
    t.create_invoice(100, "ckBTC".to_string(), "a".to_string(), vec![], 0)
        .unwrap();
    let pr = t
        .prepare_payment_request(request("inv_1", 100, "ckBTC", None), &p("payer"), 1)
        .unwrap();
    t.finish_payment(pr, Ok(1), 1);
    let tx = t.get_transaction(&"tx_1".to_string()).unwrap();
    assert!(tx
        .metadata
        .contains(&("original_amount".to_string(), "100".to_string())));
    assert!(tx
        .metadata
        .contains(&("final_amount".to_string(), "100".to_string())));
}

#[test]
fn configuration_updates_are_validated() {
    let mut t = tenant(250);
    let owner = p("merchant");
    let mut bad = UserCanisterConfig {
        name: "Shop".to_string(),
        description: "s".to_string(),
        supported_tokens: vec![token("ckBTC")],
        webhook: None,
        merchant_fee: 1001,
        auto_withdraw: false,
        withdraw_threshold: None,
        custom_settings: vec![],
    };
    assert!(t.update_configuration(bad.clone(), &owner).is_err());
    bad.merchant_fee = 100;
    assert!(t.update_configuration(bad.clone(), &p("eve")).is_err());
    assert!(t.update_configuration(bad, &owner).is_ok());
    assert_eq!(t.get_configuration().merchant_fee, 100);
}

#[test]
fn token_management_on_the_tenant() {
    let mut t = tenant(250);
    let owner = p("merchant");
    let mut doge = token("DOGE");
    doge.canister_id = p("ledger-doge");
    assert!(t.add_supported_token(doge.clone(), &p("eve")).is_err());
    assert!(t.add_supported_token(doge.clone(), &owner).is_ok());
    // a duplicate symbol is refused even under a fresh ledger
    let mut doge2 = token("DOGE");
    doge2.canister_id = p("ledger-doge-2");
    assert!(t.add_supported_token(doge2, &owner).is_err());
    assert_eq!(t.get_supported_tokens().len(), 3);

    // toggling flips the active flag
    assert_eq!(t.toggle_token_status(&"DOGE".to_string(), &owner).unwrap(), false);
    assert_eq!(t.toggle_token_status(&"DOGE".to_string(), &owner).unwrap(), true);

    // updating keeps the slot
    doge.name = "Renamed".to_string();
    assert!(t
        .update_supported_token(&"DOGE".to_string(), doge, &owner)
        .is_ok());

    // removal leaves at least one token
    assert!(t.remove_supported_token(&"DOGE".to_string(), &owner).is_ok());
    assert!(t.remove_supported_token(&"ICP".to_string(), &owner).is_ok());
    assert!(t
        .remove_supported_token(&"ckBTC".to_string(), &owner)
        .is_err());
    assert_eq!(t.get_supported_tokens().len(), 1);
}

#[test]
fn owner_handover_on_the_tenant() {
    let mut t = tenant(250);
    assert!(t.admin_update_owner(p("bob"), &p("eve")).is_err());
    assert!(t
        .admin_update_owner(Principal::anonymous(), &p("merchant"))
        .is_err());
    assert!(t.admin_update_owner(p("bob"), &p("merchant")).is_ok());
    assert_eq!(t.get_owner().text, "bob".to_string());
    // the platform admin may hand it back
    assert!(t.admin_update_owner(p("merchant"), &p("admin-principal")).is_ok());
}
