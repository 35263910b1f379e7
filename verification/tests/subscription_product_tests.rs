use payment_core::config::{TokenConfig, UserCanisterConfig};
use payment_core::coupon::{CouponType, DiscountCoupon};
use payment_core::modal::{
    BrandingConfig, ModalConfig, ModalTheme, PaymentOptions, RedirectUrls,
};
use payment_core::principal::Principal;
use payment_core::product::{Product, ProductStatus};
use payment_core::settlement::PaymentRequest;
use payment_core::subscription::{
    calculate_next_billing_date, BillingInterval, SubscriptionPlan, SubscriptionStatus,
    NANOS_PER_DAY,
};
use payment_core::tenant::TenantState;

fn p(text: &str) -> Principal {
    Principal::from_text(text.to_string())
}

fn token(symbol: &str) -> TokenConfig {
    TokenConfig {
        symbol: symbol.to_string(),
        name: format!("{} token", symbol),
        decimals: 8,
        canister_id: p("ledger-1"),
        fee: 10,
        logo: None,
        is_active: true,
    }
}

fn tenant() -> TenantState {
    let config = UserCanisterConfig {
        name: "Shop".to_string(),
        description: "A shop".to_string(),
        supported_tokens: vec![token("ckBTC")],
        webhook: None,
        merchant_fee: 0,
        auto_withdraw: false,
        withdraw_threshold: None,
        custom_settings: vec![],
    };
    TenantState::init(config, p("merchant"), p("admin-principal"))
}

fn plan(interval: BillingInterval, trial_days: Option<u32>) -> SubscriptionPlan {
    SubscriptionPlan {
        plan_id: String::new(),
        name: "Gold".to_string(),
        description: "gold tier".to_string(),
        price: 100,
        token: "ckBTC".to_string(),
        billing_interval: interval,
        trial_period_days: trial_days,
        max_subscriptions: None,
        features: vec!["all".to_string()],
        is_active: true,
        created_at: 0,
        updated_at: 0,
    }
}

#[test]
fn billing_interval_lengths() {
    assert_eq!(calculate_next_billing_date(0, &BillingInterval::Daily), NANOS_PER_DAY);
    assert_eq!(calculate_next_billing_date(5, &BillingInterval::Weekly), 5 + 7 * NANOS_PER_DAY);
    assert_eq!(calculate_next_billing_date(0, &BillingInterval::Monthly), 30 * NANOS_PER_DAY);
    assert_eq!(calculate_next_billing_date(0, &BillingInterval::Quarterly), 90 * NANOS_PER_DAY);
    assert_eq!(calculate_next_billing_date(0, &BillingInterval::Yearly), 365 * NANOS_PER_DAY);
    assert_eq!(
        calculate_next_billing_date(7, &BillingInterval::Custom(60)),
        7 + 60_000_000_000
    );
}

#[test]
fn trial_subscription_scenario() {
    // a 7-day trial starts active, with the first billing at the trial's end
    let mut t = tenant();
    let owner = p("merchant");
    let pid = t
        .subscriptions
        .create_subscription_plan(
            plan(BillingInterval::Monthly, Some(7)),
            &t.config,
            &owner,
            &owner,
            0,
        )
        .expect("the owner files a sound plan");
    let sid = t
        .subscriptions
        .create_subscription(&pid, vec![], &p("alice"), 0)
        .expect("a live plan with a free seat accepts a subscriber");
    let s = t.subscriptions.get_subscription(&sid).unwrap();
    assert_eq!(s.status, SubscriptionStatus::Active);
    assert_eq!(s.next_billing_date, 7 * NANOS_PER_DAY);
    assert_eq!(s.current_period_start, 0);
    assert_eq!(s.current_period_end, 30 * NANOS_PER_DAY);
    let old_period_end = s.current_period_end;

    // a charge one second past the trial's end advances the period
    let when = 7 * NANOS_PER_DAY + 1_000_000_000;
    let pay_id = t
        .subscriptions
        .process_subscription_payment(&sid, when)
        .expect("a due subscription is billed");
    let s = t.subscriptions.get_subscription(&sid).unwrap();
    assert_eq!(s.current_period_start, old_period_end);
    assert_eq!(s.current_period_end, old_period_end + 30 * NANOS_PER_DAY);
    assert_eq!(s.next_billing_date, s.current_period_end);
    assert_eq!(s.total_payments, 100);
    let pay = t.subscriptions.get_subscription_payment(&pay_id).unwrap();
    assert_eq!(pay.amount, 100);
    assert_eq!(pay.status, "paid".to_string());
}

#[test]
fn billing_dates_accumulate_by_whole_intervals() {
    // after N successful charges the next billing date sits exactly
    // N intervals past the first period's end
    let mut t = tenant();
    let owner = p("merchant");
    let pid = t
        .subscriptions
        .create_subscription_plan(plan(BillingInterval::Daily, None), &t.config, &owner, &owner, 0)
        .unwrap();
    let sid = t
        .subscriptions
        .create_subscription(&pid, vec![], &p("alice"), 0)
        .unwrap();
    let start = t
        .subscriptions
        .get_subscription(&sid)
        .unwrap()
        .current_period_end;
    for k in 1..=3u64 {
        let due = t
            .subscriptions
            .get_subscription(&sid)
            .unwrap()
            .next_billing_date;
        t.subscriptions
            .process_subscription_payment(&sid, due)
            .expect("a charge at the due moment passes");
        let s = t.subscriptions.get_subscription(&sid).unwrap();
        assert_eq!(s.next_billing_date, start + k * NANOS_PER_DAY);
    }
    // an early charge is refused
    let s = t.subscriptions.get_subscription(&sid).unwrap();
    let early = s.next_billing_date - 1;
    assert_eq!(
        t.subscriptions
            .process_subscription_payment(&sid, early)
            .unwrap_err(),
        "Payment is not yet due".to_string()
    );
}

#[test]
fn subscription_lifecycle_rules() {
    let mut t = tenant();
    let owner = p("merchant");
    let alice = p("alice");
    let pid = t
        .subscriptions
        .create_subscription_plan(plan(BillingInterval::Daily, None), &t.config, &owner, &owner, 0)
        .unwrap();
    let sid = t
        .subscriptions
        .create_subscription(&pid, vec![], &alice, 0)
        .unwrap();
    // no second seat for the same subscriber under the same plan
    assert!(t.subscriptions.create_subscription(&pid, vec![], &alice, 1).is_err());
    // pause only from active: a pending subscription refuses
    assert!(t.subscriptions.pause_subscription(&sid, &alice, &owner, 2).is_err());
    let due = t.subscriptions.get_subscription(&sid).unwrap().next_billing_date;
    t.subscriptions.process_subscription_payment(&sid, due).unwrap();
    assert!(t.subscriptions.pause_subscription(&sid, &alice, &owner, due + 1).is_ok());
    // resume only from paused, and only by the subscriber or the owner
    assert!(t
        .subscriptions
        .resume_subscription(&sid, &p("eve"), &owner, due + 2)
        .is_err());
    assert!(t.subscriptions.resume_subscription(&sid, &alice, &owner, due + 2).is_ok());
    // end-of-period cancellation lands at the next successful charge
    assert!(t
        .subscriptions
        .cancel_subscription(&sid, false, &alice, &owner, due + 3)
        .is_ok());
    let next = t.subscriptions.get_subscription(&sid).unwrap().next_billing_date;
    t.subscriptions.process_subscription_payment(&sid, next).unwrap();
    let s = t.subscriptions.get_subscription(&sid).unwrap();
    assert_eq!(s.status, SubscriptionStatus::Cancelled);
    assert_eq!(s.cancelled_at, Some(next));
    // a cancelled subscription cannot be cancelled again
    assert!(t
        .subscriptions
        .cancel_subscription(&sid, true, &alice, &owner, next + 1)
        .is_err());
}

#[test]
fn plan_seats_are_limited() {
    let mut t = tenant();
    let owner = p("merchant");
    let mut capped = plan(BillingInterval::Daily, None);
    capped.max_subscriptions = Some(1);
    let pid = t
        .subscriptions
        .create_subscription_plan(capped, &t.config, &owner, &owner, 0)
        .unwrap();
    t.subscriptions.create_subscription(&pid, vec![], &p("alice"), 0).unwrap();
    assert_eq!(
        t.subscriptions
            .create_subscription(&pid, vec![], &p("bob"), 1)
            .unwrap_err(),
        "Subscription plan has reached maximum number of subscriptions".to_string()
    );
    // a plan with seats taken cannot be deleted
    assert!(t.subscriptions.delete_subscription_plan(&pid, &owner, &owner).is_err());
}

#[test]
fn product_invoice_and_sale_trail() {
    let mut t = tenant();
    let owner = p("merchant");
    let product = Product {
        product_id: String::new(),
        name: "Mug".to_string(),
        description: "a mug".to_string(),
        price: 100,
        token_symbol: "ckBTC".to_string(),
        category: Some("Kitchen".to_string()),
        image_url: None,
        status: ProductStatus::Active,
        inventory_count: Some(2),
        metadata: vec![],
        created_at: 0,
        updated_at: 0,
    };
    let pid = t
        .products
        .create_product(product, &t.config, &owner, &owner, 0)
        .expect("the owner files a sound product");
    assert_eq!(pid, "product_1".to_string());

    let inv = t
        .create_invoice_for_product(&pid, 2, vec![], 0)
        .expect("an in-stock product yields an invoice");
    assert_eq!(inv.amount, 200);
    assert_eq!(inv.description, "Mug (Qty: 2)".to_string());
    assert!(inv
        .metadata
        .contains(&("product_id".to_string(), "product_1".to_string())));
    assert!(inv
        .metadata
        .contains(&("quantity".to_string(), "2".to_string())));

    // paying the invoice feeds the sales figures and the inventory
    let pr = t
        .prepare_payment_request(
            PaymentRequest {
                invoice_id: inv.id.clone(),
                amount: 200,
                token_symbol: "ckBTC".to_string(),
                coupon_code: None,
                metadata: vec![],
            },
            &p("payer"),
            1,
        )
        .unwrap();
    t.finish_payment(pr, Ok(5), 1);
    let stats = t.products.get_product_sales_stats(&pid).unwrap();
    assert_eq!(stats.total_sales, 1);
    assert_eq!(stats.total_revenue, 200);
    assert_eq!(stats.units_sold, 1);
    assert_eq!(stats.last_sale_at, Some(1));
    let prod = t.products.get_product(&pid).unwrap();
    assert_eq!(prod.inventory_count, Some(1));

    // demanding more than the stock is refused
    assert!(t.create_invoice_for_product(&pid, 5, vec![], 2).is_err());
    assert!(t.create_invoice_for_product(&pid, 0, vec![], 2).is_err());
}

fn mug(name: &str) -> Product {
    Product {
        product_id: String::new(),
        name: name.to_string(),
        description: "a mug".to_string(),
        price: 100,
        token_symbol: "ckBTC".to_string(),
        category: None,
        image_url: None,
        status: ProductStatus::Active,
        inventory_count: Some(1),
        metadata: vec![],
        created_at: 0,
        updated_at: 0,
    }
}

#[test]
fn inventory_drives_product_status() {
    let mut t = tenant();
    let owner = p("merchant");
    let pid = t
        .products
        .create_product(mug("Mug"), &t.config, &owner, &owner, 0)
        .unwrap();
    // the last unit sold sends the product out of stock
    t.products.update_product_sales_stats(&pid, 100, 3);
    assert_eq!(t.products.get_product(&pid).unwrap().status, ProductStatus::OutOfStock);
    // restocking brings it back
    t.products
        .update_product_inventory(&pid, Some(4), &owner, &owner, 4)
        .unwrap();
    assert_eq!(t.products.get_product(&pid).unwrap().status, ProductStatus::Active);
    // updating keeps creation data
    assert!(t
        .products
        .update_product(&pid, mug("Cup"), &t.config.clone(), &owner, &owner, 9)
        .is_ok());
    let got = t.products.get_product(&pid).unwrap();
    assert_eq!(got.name, "Cup".to_string());
    assert_eq!(got.created_at, 0);
    assert_eq!(t.products.get_product_categories().len(), 0);
    assert_eq!(t.products.get_product_stats(&owner, &owner), (1, 1));
}

#[test]
fn coupon_codes_fold_case_and_stay_unique() {
    let mut t = tenant();
    let owner = p("merchant");
    fn save10() -> DiscountCoupon {
        DiscountCoupon {
            coupon_id: String::new(),
            code: "save10".to_string(),
            coupon_type: CouponType::Percentage(10),
            description: "ten off".to_string(),
            minimum_amount: None,
            applicable_tokens: vec![],
            usage_limit: Some(1),
            used_count: 0,
            expires_at: Some(1_000),
            is_active: true,
            created_at: 0,
            updated_at: 0,
        }
    }
    let cid = t.coupons.create_coupon(save10(), &owner, &owner, 0).unwrap();
    // the stored code is folded to upper case
    assert_eq!(t.coupons.get_coupon(&cid).unwrap().code, "SAVE10".to_string());
    assert!(t.coupons.get_coupon_by_code(&"SaVe10".to_string()).is_some());
    // a case-insensitive duplicate is refused
    assert!(t.coupons.create_coupon(save10(), &owner, &owner, 1).is_err());

    // limits and expiry gate a use
    let r = t.coupons.validate_and_use_coupon(
        &"SAVE10".to_string(),
        100,
        &"ckBTC".to_string(),
        &p("payer"),
        5,
    );
    assert_eq!(r.unwrap(), (cid.clone(), 10));
    let r = t.coupons.validate_and_use_coupon(
        &"SAVE10".to_string(),
        100,
        &"ckBTC".to_string(),
        &p("payer"),
        6,
    );
    assert_eq!(r.unwrap_err(), "Coupon usage limit reached".to_string());
    // striking the coupon clears its history
    assert!(t.coupons.delete_coupon(&cid, &owner, &owner).is_ok());
    assert!(t.coupons.get_coupon(&cid).is_none());
    assert!(t.coupons.get_coupon_usage_stats(&cid).is_err());
}

#[test]
fn modal_dialogs_and_their_counters() {
    let mut t = tenant();
    let owner = p("merchant");
    fn checkout_modal() -> ModalConfig {
        ModalConfig {
        modal_id: String::new(),
        name: "Checkout".to_string(),
        description: None,
        theme: ModalTheme {
            primary_color: "#333333".to_string(),
            background_color: "#ffffff".to_string(),
            text_color: "#000000".to_string(),
            border_radius: 8,
            font_family: "serif".to_string(),
        },
        payment_options: PaymentOptions {
            allowed_tokens: vec!["ckBTC".to_string()],
            require_email: false,
            require_shipping: false,
            show_amount_breakdown: true,
            enable_tips: false,
        },
        branding: BrandingConfig {
            logo_url: None,
            company_name: "Shop".to_string(),
            support_url: None,
            terms_url: None,
        },
        redirect_urls: RedirectUrls {
            success_url: "https://example.test/ok".to_string(),
            cancel_url: "https://example.test/no".to_string(),
            webhook_url: None,
        },
        template_id: None,
        created_at: 0,
        updated_at: 0,
        is_active: true,
        }
    }
    assert!(t.modals.create_modal_config(checkout_modal(), &p("eve"), &owner, 0).is_err());
    let mid = t.modals.create_modal_config(checkout_modal(), &owner, &owner, 0).unwrap();
    assert_eq!(mid, "modal_2".to_string());
    assert!(t.modals.track_modal_view(&mid).is_ok());
    assert!(t.modals.track_modal_view(&mid).is_ok());
    assert_eq!(t.modals.get_modal_analytics(&mid).unwrap().total_views, 2);
    assert_eq!(t.modals.list_my_modals().len(), 1);
    assert!(t.modals.delete_modal_config(&mid, &owner, &owner).is_ok());
    assert!(t.modals.get_modal_config(&mid).is_none());
    assert!(t.modals.track_modal_view(&mid).is_err());
}
