use payment_core::config::{TokenConfig, UserCanisterConfig};
use payment_core::coupon::{CouponType, DiscountCoupon};
use payment_core::principal::Principal;
use payment_core::product::{Product, ProductStatus};
use payment_core::settlement::PaymentRequest;
use payment_core::subscription::{BillingInterval, SubscriptionPlan};
use payment_core::tenant::TenantState;

fn p(text: &str) -> Principal {
    Principal::from_text(text.to_string())
}

fn token(symbol: &str, ledger: &str) -> TokenConfig {
    TokenConfig {
        symbol: symbol.to_string(),
        name: format!("{} token", symbol),
        decimals: 8,
        canister_id: p(ledger),
        fee: 0,
        logo: None,
        is_active: true,
    }
}

fn tenant() -> TenantState {
    let config = UserCanisterConfig {
        name: "Shop".to_string(),
        description: "A shop".to_string(),
        supported_tokens: vec![token("ckBTC", "ledger-1"), token("ICP", "ledger-2")],
        webhook: None,
        merchant_fee: 0,
        auto_withdraw: false,
        withdraw_threshold: None,
        custom_settings: vec![],
    };
    TenantState::init(config, p("merchant"), p("admin-principal"))
}

fn coupon(code: &str) -> DiscountCoupon {
    DiscountCoupon {
        coupon_id: String::new(),
        code: code.to_string(),
        coupon_type: CouponType::Percentage(10),
        description: "ten off".to_string(),
        minimum_amount: None,
        applicable_tokens: vec![],
        usage_limit: None,
        used_count: 0,
        expires_at: None,
        is_active: true,
        created_at: 0,
        updated_at: 0,
    }
}

#[test]
fn coupon_gates_fire_one_by_one() {
    let mut t = tenant();
    let owner = p("merchant");
    let payer = p("payer");

    let mut expired = coupon("OLD");
    expired.expires_at = Some(10);
    t.coupons.create_coupon(expired, &owner, &owner, 0).unwrap();
    let r = t.coupons.validate_and_use_coupon(&"OLD".to_string(), 100, &"ckBTC".to_string(), &payer, 11);
    assert_eq!(r.unwrap_err(), "Coupon has expired".to_string());

    let mut dormant = coupon("SLEEPY");
    dormant.is_active = false;
    t.coupons.create_coupon(dormant, &owner, &owner, 0).unwrap();
    let r = t.coupons.validate_and_use_coupon(&"SLEEPY".to_string(), 100, &"ckBTC".to_string(), &payer, 1);
    assert_eq!(r.unwrap_err(), "Coupon is not active".to_string());

    let mut pricey = coupon("BIGONLY");
    pricey.minimum_amount = Some(500);
    t.coupons.create_coupon(pricey, &owner, &owner, 0).unwrap();
    let r = t.coupons.validate_and_use_coupon(&"BIGONLY".to_string(), 100, &"ckBTC".to_string(), &payer, 1);
    assert_eq!(r.unwrap_err(), "Minimum purchase amount required".to_string());

    let mut picky = coupon("ICPONLY");
    picky.applicable_tokens = vec!["ICP".to_string()];
    t.coupons.create_coupon(picky, &owner, &owner, 0).unwrap();
    let r = t.coupons.validate_and_use_coupon(&"ICPONLY".to_string(), 100, &"ckBTC".to_string(), &payer, 1);
    assert_eq!(r.unwrap_err(), "Coupon is not applicable to this token".to_string());
    let r = t.coupons.validate_and_use_coupon(&"ICPONLY".to_string(), 100, &"ICP".to_string(), &payer, 1);
    assert!(r.is_ok());

    let r = t.coupons.validate_and_use_coupon(&"NOSUCH".to_string(), 100, &"ckBTC".to_string(), &payer, 1);
    assert_eq!(r.unwrap_err(), "Coupon not found".to_string());
}

#[test]
fn updating_a_coupon_keeps_count_and_birth() {
    let mut t = tenant();
    let owner = p("merchant");
    let cid = t.coupons.create_coupon(coupon("KEEP"), &owner, &owner, 3).unwrap();
    t.coupons
        .validate_and_use_coupon(&"KEEP".to_string(), 100, &"ckBTC".to_string(), &p("payer"), 4)
        .unwrap();
    let mut newer = coupon("KEPT");
    newer.coupon_type = CouponType::FixedAmount(5);
    t.coupons.update_coupon(&cid, newer, &owner, &owner, 9).unwrap();
    let c = t.coupons.get_coupon(&cid).unwrap();
    assert_eq!(c.code, "KEPT".to_string());
    assert_eq!(c.used_count, 1);
    assert_eq!(c.created_at, 3);
    assert_eq!(c.updated_at, 9);
    // a second coupon cannot take the first one's code
    t.coupons.create_coupon(coupon("OTHER"), &owner, &owner, 10).unwrap();
    let grab = t.coupons.update_coupon(&cid, coupon("other"), &owner, &owner, 11);
    assert_eq!(grab.unwrap_err(), "A coupon with this code already exists".to_string());
    // toggling flips and stamps
    assert_eq!(t.coupons.toggle_coupon_status(&cid, &owner, &owner, 12).unwrap(), false);
    let active = t.coupons.list_active_coupons(12);
    assert_eq!(active.len(), 1);
    assert_eq!(active[0].code, "OTHER".to_string());
}

#[test]
fn clear_alls_report_their_counts() {
    let mut t = tenant();
    let owner = p("merchant");
    t.coupons.create_coupon(coupon("A"), &owner, &owner, 0).unwrap();
    t.coupons.create_coupon(coupon("B"), &owner, &owner, 0).unwrap();
    assert!(t.coupons.admin_clear_all_coupons(&p("eve"), &owner).is_err());
    assert_eq!(t.coupons.admin_clear_all_coupons(&owner, &owner).unwrap(), 2);
    assert_eq!(t.coupons.list_my_coupons().len(), 0);

    let plan = SubscriptionPlan {
        plan_id: String::new(),
        name: "Gold".to_string(),
        description: "gold".to_string(),
        price: 10,
        token: "ckBTC".to_string(),
        billing_interval: BillingInterval::Daily,
        trial_period_days: None,
        max_subscriptions: None,
        features: vec![],
        is_active: true,
        created_at: 0,
        updated_at: 0,
    };
    let pid = t
        .subscriptions
        .create_subscription_plan(plan, &t.config, &owner, &owner, 0)
        .unwrap();
    t.subscriptions.create_subscription(&pid, vec![], &p("alice"), 0).unwrap();
    assert_eq!(t.subscriptions.get_subscription_stats(&owner, &owner), (1, 1, 0));
    assert_eq!(t.subscriptions.get_subscription_stats(&p("eve"), &owner), (0, 0, 0));
    assert_eq!(t.subscriptions.admin_clear_all_subscriptions(&owner, &owner).unwrap(), 2);
    assert_eq!(t.subscriptions.list_subscription_plans().len(), 0);
}

fn catalog_product(name: &str, symbol: &str, category: Option<&str>) -> Product {
    Product {
        product_id: String::new(),
        name: name.to_string(),
        description: "a good".to_string(),
        price: 10,
        token_symbol: symbol.to_string(),
        category: category.map(|c| c.to_string()),
        image_url: None,
        status: ProductStatus::Active,
        inventory_count: None,
        metadata: vec![],
        created_at: 0,
        updated_at: 0,
    }
}

#[test]
fn product_lists_select_by_category_token_and_status() {
    let mut t = tenant();
    let owner = p("merchant");
    let a = t
        .products
        .create_product(catalog_product("A", "ckBTC", Some("Kitchen")), &t.config, &owner, &owner, 0)
        .unwrap();
    t.products
        .create_product(catalog_product("B", "ICP", Some("Kitchen")), &t.config, &owner, &owner, 0)
        .unwrap();
    t.products
        .create_product(catalog_product("C", "ICP", None), &t.config, &owner, &owner, 0)
        .unwrap();
    assert_eq!(t.products.list_products().len(), 3);
    assert_eq!(t.products.list_products_by_category(&"Kitchen".to_string()).len(), 2);
    assert_eq!(t.products.list_products_by_token(&"ICP".to_string()).len(), 2);
    let cats = t.products.get_product_categories();
    assert_eq!(cats, vec!["Kitchen".to_string()]);

    assert_eq!(
        t.products.toggle_product_status(&a, &owner, &owner, 1).unwrap(),
        ProductStatus::Inactive
    );
    assert_eq!(t.products.list_active_products().len(), 2);
    // keep-one clear strikes everything but the named product
    let keep = "product_2".to_string();
    assert_eq!(t.products.admin_clear_all_products(&keep, &owner, &owner).unwrap(), 2);
    assert_eq!(t.products.list_products().len(), 1);
    assert!(t.products.get_product(&keep).is_some());
}

#[test]
fn top_tokens_rank_by_settled_volume() {
    let mut t = tenant();
    // two ckBTC settlements and one larger ICP settlement
    t.create_invoice(100, "ckBTC".to_string(), "a".to_string(), vec![], 0).unwrap();
    t.create_invoice(150, "ckBTC".to_string(), "b".to_string(), vec![], 0).unwrap();
    t.create_invoice(900, "ICP".to_string(), "c".to_string(), vec![], 0).unwrap();
    let payer = p("payer");
    for (inv, amount, sym) in
        [("inv_1", 100u64, "ckBTC"), ("inv_2", 150, "ckBTC"), ("inv_3", 900, "ICP")]
    {
        let pr = t
            .prepare_payment_request(
                PaymentRequest {
                    invoice_id: inv.to_string(),
                    amount,
                    token_symbol: sym.to_string(),
                    coupon_code: None,
                    metadata: vec![],
                },
                &payer,
                1,
            )
            .unwrap();
        t.finish_payment(pr, Ok(1), 1);
    }
    let a = t.get_enhanced_analytics();
    assert_eq!(a.top_tokens, vec!["ICP".to_string(), "ckBTC".to_string()]);
    let mut volumes = a.total_volume.clone();
    volumes.sort();
    assert_eq!(
        volumes,
        vec![("ICP".to_string(), 900), ("ckBTC".to_string(), 250)]
    );
    let brief = t.get_analytics();
    assert_eq!(brief.total_transactions, 3);
    assert_eq!(brief.completed_transactions, 3);
    assert_eq!(brief.average_amount.len(), 0);
}
