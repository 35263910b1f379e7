use vstd::prelude::*;
use vstd::string::StringExecFns;

use crate::balances::{spec_balance, BalanceStore};
use crate::config::{
    config_valid, has_active_token, validate_canister_config, UserCanisterConfig,
};
use crate::coupon::{
    coupon_ok, coupons_after_use, find_coupon_idx, spec_discount, usage_after_use, CouponEngine,
    DiscountCouponView,
};
use crate::modal::{modal_stats_after_payment, ModalEngine};
use crate::principal::{anonymous_text, Principal};
use crate::product::{
    products_after_sale, sat_add64, stats_after_sale, ProductEngine, ProductStatus,
};
use crate::settlement::{
    InvoiceStatus, PaymentInvoice, PaymentInvoiceView, PaymentMethod, PaymentRequest,
    PaymentRequestView, PaymentResult, PaymentResultView, PaymentTransaction,
    PaymentTransactionView, TransactionStatus, TransactionStatusView,
};
use crate::subscription::SubscriptionEngine;
use crate::table::Table;
use crate::util::{
    dec_digits, make_id, meta_lookup, pairs_view, serial_id, upper_of, u64_to_string,
};

verus! {

/// How long a fresh invoice stays payable.
pub const INVOICE_TTL_NANOS: u64 = 86_400_000_000_000;

/// One tenant unit's whole durable state: its configuration, its owner,
/// and the tables of every engine it runs.
pub struct TenantState {
    pub config: UserCanisterConfig,
    pub owner: Principal,
    pub admin: Principal,
    pub invoices: Table<PaymentInvoice>,
    pub transactions: Table<PaymentTransaction>,
    pub balances: BalanceStore,
    pub next_invoice_id: u64,
    pub next_transaction_id: u64,
    pub modals: ModalEngine,
    pub coupons: CouponEngine,
    pub subscriptions: SubscriptionEngine,
    pub products: ProductEngine,
}

/// An invoice that can still be settled by this request: not yet paid,
/// not past its expiry, and priced in the token the payer offers.
pub open spec fn invoice_payable(inv: PaymentInvoiceView, req: PaymentRequestView, now: u64)
    -> bool {
    &&& inv.status != InvoiceStatus::Paid
    &&& (inv.expires_at matches Some(e) ==> now <= e)
    &&& inv.token.symbol == req.token_symbol
}

/// The checks a payment request passes before any coupon is touched.
pub open spec fn payment_precheck(
    invs: Map<Seq<char>, PaymentInvoiceView>,
    req: PaymentRequestView,
    now: u64,
) -> bool {
    invs.contains_key(req.invoice_id) && invoice_payable(invs[req.invoice_id], req, now)
}

/// Once an invoice is paid, every further payment request against it
/// fails the prechecks: settlement is idempotent at the invoice.
pub proof fn lemma_paid_invoice_refused(
    invs: Map<Seq<char>, PaymentInvoiceView>,
    req: PaymentRequestView,
    now: u64,
)
    requires
        invs.contains_key(req.invoice_id),
        invs[req.invoice_id].status == InvoiceStatus::Paid,
    ensures
        !payment_precheck(invs, req, now),
{
}

/// Whether the supplied coupon code names a usable coupon for this
/// request.
pub open spec fn coupon_applies(
    cs: Seq<DiscountCouponView>,
    code: Seq<char>,
    amount: u64,
    token: Seq<char>,
    now: u64,
) -> bool {
    find_coupon_idx(cs, upper_of(code)) matches Some(i) && coupon_ok(cs[i], amount, token, now)
}

/// The discount a request earns: its coupon's cut when one applies,
/// nothing otherwise.
pub open spec fn effective_discount(
    cs: Seq<DiscountCouponView>,
    req: PaymentRequestView,
    now: u64,
) -> int {
    match req.coupon_code {
        Option::Some(code) => if coupon_applies(cs, code, req.amount, req.token_symbol, now) {
            spec_discount(
                cs[find_coupon_idx(cs, upper_of(code))->Some_0].coupon_type,
                req.amount,
            )
        } else {
            0
        },
        Option::None => 0,
    }
}

/// Whether this request consumes a coupon use: the prechecks pass and
/// the supplied code names a usable coupon.
pub open spec fn coupon_consumed(
    invs: Map<Seq<char>, PaymentInvoiceView>,
    cs: Seq<DiscountCouponView>,
    req: PaymentRequestView,
    now: u64,
) -> bool {
    &&& payment_precheck(invs, req, now)
    &&& (match req.coupon_code {
        Option::Some(code) => coupon_applies(cs, code, req.amount, req.token_symbol, now),
        Option::None => false,
    })
}

/// The coupon a request's code names, when one applies.
pub open spec fn used_coupon(cs: Seq<DiscountCouponView>, req: PaymentRequestView)
    -> DiscountCouponView {
    cs[find_coupon_idx(cs, upper_of(req.coupon_code->Some_0))->Some_0]
}

/// Everything settled before the external transfer is attempted: the
/// transaction identity, the amounts, and the transfer to make.
#[derive(Debug)]
pub struct PreparedPayment {
    pub transaction_id: String,
    pub invoice_id: String,
    pub payer: Principal,
    pub token: crate::config::TokenConfig,
    pub amount_original: u64,
    pub discount_applied: u64,
    pub final_amount: u64,
    pub merchant_fee: u64,
    pub net_amount: u64,
    pub transfer_amount: u64,
    pub coupon_id: Option<String>,
    pub metadata: Vec<(String, String)>,
}

pub struct PreparedPaymentView {
    pub transaction_id: Seq<char>,
    pub invoice_id: Seq<char>,
    pub payer: Seq<char>,
    pub token: crate::config::TokenConfigView,
    pub amount_original: u64,
    pub discount_applied: u64,
    pub final_amount: u64,
    pub merchant_fee: u64,
    pub net_amount: u64,
    pub transfer_amount: u64,
    pub coupon_id: Option<Seq<char>>,
    pub metadata: Seq<(Seq<char>, Seq<char>)>,
}

impl View for PreparedPayment {
    type V = PreparedPaymentView;

    open spec fn view(&self) -> PreparedPaymentView {
        PreparedPaymentView {
            transaction_id: self.transaction_id@,
            invoice_id: self.invoice_id@,
            payer: self.payer@,
            token: self.token@,
            amount_original: self.amount_original,
            discount_applied: self.discount_applied,
            final_amount: self.final_amount,
            merchant_fee: self.merchant_fee,
            net_amount: self.net_amount,
            transfer_amount: self.transfer_amount,
            coupon_id: match self.coupon_id {
                Option::Some(c) => Option::Some(c@),
                Option::None => Option::None,
            },
            metadata: pairs_view(self.metadata@),
        }
    }
}

/// The metadata written on a settlement transaction: the request's own
/// pairs, the coupon trail when one applied, and the amount trail.
pub open spec fn tx_meta(p: PreparedPaymentView) -> Seq<(Seq<char>, Seq<char>)> {
    let with_coupon = match p.coupon_id {
        Option::Some(cid) => p.metadata.push(("coupon_id"@, cid)).push(
            ("discount_applied"@, dec_digits(p.discount_applied as int)),
        ),
        Option::None => p.metadata,
    };
    with_coupon.push(("original_amount"@, dec_digits(p.amount_original as int))).push(
        ("final_amount"@, dec_digits(p.final_amount as int)),
    )
}

impl TenantState {
    pub open spec fn wf(&self) -> bool {
        &&& self.invoices.wf()
        &&& self.transactions.wf()
        &&& self.modals.wf()
        &&& self.coupons.wf()
        &&& self.subscriptions.wf()
        &&& self.products.wf()
        &&& self.config@.merchant_fee <= 1000
    }

    /// Brings a fresh unit up with its installed configuration and owner.
    pub fn init(config: UserCanisterConfig, owner: Principal, admin: Principal) -> (s: Self)
        requires
            config@.merchant_fee <= 1000,
        ensures
            s.wf(),
            s.config@ == config@,
            s.owner@ == owner@,
            s.admin@ == admin@,
            s.invoices.m() == Map::<Seq<char>, PaymentInvoiceView>::empty(),
            s.transactions.m() == Map::<Seq<char>, PaymentTransactionView>::empty(),
            s.balances.m() == crate::balances::empty_balances(),
            s.next_invoice_id == 1,
            s.next_transaction_id == 1,
    {
        TenantState {
            config,
            owner,
            admin,
            invoices: Table::new(),
            transactions: Table::new(),
            balances: BalanceStore::new(),
            next_invoice_id: 1,
            next_transaction_id: 1,
            modals: ModalEngine::new(),
            coupons: CouponEngine::new(),
            subscriptions: SubscriptionEngine::new(),
            products: ProductEngine::new(),
        }
    }

    pub fn get_owner(&self) -> (r: &Principal)
        ensures
            r@ == self.owner@,
    {
        &self.owner
    }

    /// Hands ownership of the unit to another identity; only the current
    /// owner or the platform admin may, and never to the anonymous one.
    pub fn admin_update_owner(&mut self, new_owner: Principal, caller: &Principal) -> (r: Result<
        (),
        String,
    >)
        requires
            old(self).wf(),
        ensures
            final(self).wf(),
            r is Ok <==> ((caller@ == old(self).owner@ || caller@ == old(self).admin@)
                && new_owner@ != anonymous_text()),
            r is Ok ==> final(self).owner@ == new_owner@,
            r is Err ==> final(self).owner@ == old(self).owner@,
            final(self).config == old(self).config,
            final(self).invoices == old(self).invoices,
            final(self).transactions == old(self).transactions,
            final(self).balances == old(self).balances,
    {
        if !caller.eq_p(&self.owner) && !caller.eq_p(&self.admin) {
            return Err(String::from_str("Only the current owner or admin can update ownership"));
        }
        if new_owner.is_anonymous() {
            return Err(String::from_str("Cannot set owner to anonymous principal"));
        }
        self.owner = new_owner;
        Ok(())
    }

    /// Replaces the unit's configuration; only the owner may, and the
    /// new configuration must keep the tenant invariants.
    pub fn update_configuration(&mut self, new_config: UserCanisterConfig, caller: &Principal)
        -> (r: Result<(), String>)
        requires
            old(self).wf(),
        ensures
            final(self).wf(),
            r is Ok <==> (caller@ == old(self).owner@ && config_valid(new_config@)),
            r is Ok ==> final(self).config@ == new_config@,
            r is Err ==> final(self).config@ == old(self).config@,
            final(self).owner == old(self).owner,
            final(self).invoices == old(self).invoices,
            final(self).balances == old(self).balances,
    {
        if !caller.eq_p(&self.owner) {
            return Err(String::from_str("Only the owner can update configuration"));
        }
        if let Err(e) = validate_canister_config(&new_config) {
            return Err(e);
        }
        self.config = new_config;
        Ok(())
    }

    pub fn get_configuration(&self) -> (r: &UserCanisterConfig)
        ensures
            r@ == self.config@,
    {
        &self.config
    }

    pub fn get_supported_tokens(&self) -> (r: Vec<crate::config::TokenConfig>)
        ensures
            crate::config::tokens_view(r@) == self.config@.supported_tokens,
    {
        crate::config::clone_tokens(&self.config.supported_tokens)
    }

    /// Opens an invoice for an amount of one active supported token,
    /// good for one day.
    pub fn create_invoice(
        &mut self,
        amount: u64,
        token_symbol: String,
        description: String,
        metadata: Vec<(String, String)>,
        now: u64,
    ) -> (r: Result<PaymentInvoice, String>)
        requires
            old(self).wf(),
            old(self).next_invoice_id < u64::MAX,
            now + INVOICE_TTL_NANOS <= u64::MAX,
        ensures
            final(self).wf(),
            r is Ok <==> has_active_token(old(self).config@.supported_tokens, token_symbol@),
            r matches Ok(inv) ==> {
                let ti = crate::config::find_active_idx(
                    old(self).config@.supported_tokens,
                    token_symbol@,
                )->Some_0;
                let v = PaymentInvoiceView {
                    id: serial_id("inv_"@, old(self).next_invoice_id as int),
                    merchant: old(self).owner@,
                    amount,
                    token: old(self).config@.supported_tokens[ti],
                    description: description@,
                    metadata: pairs_view(metadata@),
                    expires_at: Option::Some((now + INVOICE_TTL_NANOS) as u64),
                    created_at: now,
                    status: InvoiceStatus::Created,
                };
                &&& inv@ == v
                &&& final(self).invoices.m() == old(self).invoices.m().insert(v.id, v)
                &&& final(self).next_invoice_id == old(self).next_invoice_id + 1
            },
            r is Err ==> final(self).invoices.m() == old(self).invoices.m()
                && final(self).next_invoice_id == old(self).next_invoice_id,
            final(self).transactions == old(self).transactions,
            final(self).balances == old(self).balances,
            final(self).config == old(self).config,
            final(self).owner == old(self).owner,
    {
        let token = match self.config.find_active_token(&token_symbol) {
            Some(t) => t,
            None => {
                return Err(String::from_str("Token not supported or inactive"));
            },
        };
        let id = make_id("inv_", self.next_invoice_id);
        self.next_invoice_id = self.next_invoice_id + 1;
        let invoice = PaymentInvoice {
            id,
            merchant: self.owner.clone(),
            amount,
            token,
            description,
            metadata,
            expires_at: Some(now + INVOICE_TTL_NANOS),
            created_at: now,
            status: InvoiceStatus::Created,
        };
        self.invoices.insert(invoice.clone());
        Ok(invoice)
    }

    pub fn get_invoice(&self, invoice_id: &String) -> (r: Option<&PaymentInvoice>)
        requires
            self.wf(),
        ensures
            match r {
                Some(inv) => self.invoices.m().contains_key(invoice_id@) && inv@
                    == self.invoices.m()[invoice_id@],
                None => !self.invoices.m().contains_key(invoice_id@),
            },
    {
        self.invoices.get(invoice_id)
    }

    pub fn get_transaction(&self, transaction_id: &String) -> (r: Option<&PaymentTransaction>)
        requires
            self.wf(),
        ensures
            match r {
                Some(tx) => self.transactions.m().contains_key(transaction_id@) && tx@
                    == self.transactions.m()[transaction_id@],
                None => !self.transactions.m().contains_key(transaction_id@),
            },
    {
        self.transactions.get(transaction_id)
    }

    pub fn get_balance(&self, token_symbol: &String) -> (r: u64)
        ensures
            r == spec_balance(self.balances.m(), token_symbol@),
    {
        self.balances.get_balance(token_symbol)
    }

    pub fn get_all_balances(&self) -> (r: Vec<(String, u64)>)
        ensures
            forall|i: int|
                0 <= i < r@.len() ==> self.balances.m().contains_key(#[trigger] r@[i].0@)
                    && self.balances.m()[r@[i].0@] == r@[i].1,
            forall|i: int, j: int| 0 <= i < j < r@.len() ==> r@[i].0@ != r@[j].0@,
            forall|k: Seq<char>|
                self.balances.m().contains_key(k) ==> exists|i: int|
                    0 <= i < r@.len() && #[trigger] r@[i].0@ == k,
    {
        self.balances.get_all_balances()
    }

    /// Pays out settled funds; only the owner may, and only up to the
    /// recorded balance.
    pub fn withdraw(&mut self, token_symbol: &String, amount: u64, caller: &Principal) -> (r:
        Result<u64, String>)
        requires
            old(self).wf(),
        ensures
            final(self).wf(),
            r is Ok <==> (caller@ == old(self).owner@ && spec_balance(
                old(self).balances.m(),
                token_symbol@,
            ) >= amount),
            r matches Ok(a) ==> a == amount && final(self).balances.m()
                == old(self).balances.m().insert(
                token_symbol@,
                (spec_balance(old(self).balances.m(), token_symbol@) - amount) as u64,
            ),
            r is Err ==> final(self).balances.m() == old(self).balances.m(),
            final(self).invoices == old(self).invoices,
            final(self).transactions == old(self).transactions,
            final(self).config == old(self).config,
            final(self).owner == old(self).owner,
    {
        if !caller.eq_p(&self.owner) {
            return Err(String::from_str("Only the owner can withdraw"));
        }
        let current = self.balances.get_balance(token_symbol);
        if current < amount {
            return Err(String::from_str("Insufficient balance"));
        }
        self.balances.debit(token_symbol, amount);
        Ok(amount)
    }

    /// The legacy entry point's request: pay an invoice in full, in its
    /// own token, with no coupon.
    pub fn payment_request_for_invoice(&self, invoice_id: String) -> (r: Result<
        PaymentRequest,
        String,
    >)
        requires
            self.wf(),
        ensures
            r is Ok <==> self.invoices.m().contains_key(invoice_id@),
            r matches Ok(req) ==> {
                let inv = self.invoices.m()[invoice_id@];
                &&& req@.invoice_id == invoice_id@
                &&& req@.amount == inv.amount
                &&& req@.token_symbol == inv.token.symbol
                &&& req@.coupon_code is None
                &&& req@.metadata == Seq::<(Seq<char>, Seq<char>)>::empty()
            },
    {
        let (amount, token_symbol) = match self.invoices.get(&invoice_id) {
            Some(inv) => (inv.amount, inv.token.symbol.clone()),
            None => {
                return Err(String::from_str("Invoice not found"));
            },
        };
        let req = PaymentRequest {
            invoice_id,
            amount,
            token_symbol,
            coupon_code: None,
            metadata: Vec::new(),
        };
        proof {
            assert(req@.metadata =~= Seq::<(Seq<char>, Seq<char>)>::empty());
        }
        Ok(req)
    }

    /// Everything of a payment that runs before the external transfer:
    /// the invoice and token checks, the coupon (consumed at once, win
    /// or lose the later transfer), the fee split, and the transaction
    /// identity. No invoice, transaction or balance is touched yet.
    pub fn prepare_payment_request(
        &mut self,
        request: PaymentRequest,
        caller: &Principal,
        now: u64,
    ) -> (r: Result<PreparedPayment, String>)
        requires
            old(self).wf(),
            old(self).next_transaction_id < u64::MAX,
        ensures
            final(self).wf(),
            r is Ok <==> (payment_precheck(old(self).invoices.m(), request@, now)
                && request@.amount - effective_discount(old(self).coupons.coupons.sq(), request@, now)
                >= old(self).invoices.m()[request@.invoice_id].amount),
            coupon_consumed(old(self).invoices.m(), old(self).coupons.coupons.sq(), request@, now)
                ==> {
                let c = used_coupon(old(self).coupons.coupons.sq(), request@);
                &&& final(self).coupons.coupons.m() == coupons_after_use(
                    old(self).coupons.coupons.m(),
                    c,
                    now,
                )
                &&& final(self).coupons.usage.m() == usage_after_use(
                    old(self).coupons.usage.m(),
                    c,
                    request@.amount,
                    caller@,
                    now,
                )
            },
            !coupon_consumed(old(self).invoices.m(), old(self).coupons.coupons.sq(), request@, now)
                ==> final(self).coupons.coupons.m() == old(self).coupons.coupons.m()
                && final(self).coupons.usage.m() == old(self).coupons.usage.m(),
            r matches Ok(p) ==> {
                let inv = old(self).invoices.m()[request@.invoice_id];
                let discount = effective_discount(old(self).coupons.coupons.sq(), request@, now);
                let fin = (request@.amount - discount) as u64;
                &&& p@.transaction_id == serial_id("tx_"@, old(self).next_transaction_id as int)
                &&& p@.invoice_id == request@.invoice_id
                &&& p@.payer == caller@
                &&& p@.token == inv.token
                &&& p@.amount_original == request@.amount
                &&& p@.discount_applied == discount
                &&& p@.final_amount == fin
                &&& p@.merchant_fee == crate::spec_merchant_fee(fin, old(self).config@.merchant_fee)
                &&& p@.net_amount == fin - p@.merchant_fee
                &&& p@.transfer_amount == sat_add64(fin, inv.token.fee)
                &&& p@.coupon_id == (if coupon_consumed(
                    old(self).invoices.m(),
                    old(self).coupons.coupons.sq(),
                    request@,
                    now,
                ) {
                    Option::Some(used_coupon(old(self).coupons.coupons.sq(), request@).coupon_id)
                } else {
                    Option::<Seq<char>>::None
                })
                &&& p@.metadata == request@.metadata
                &&& final(self).next_transaction_id == old(self).next_transaction_id + 1
            },
            r is Err ==> final(self).next_transaction_id == old(self).next_transaction_id,
            final(self).invoices == old(self).invoices,
            final(self).transactions == old(self).transactions,
            final(self).balances == old(self).balances,
            final(self).products == old(self).products,
            final(self).modals == old(self).modals,
            final(self).subscriptions == old(self).subscriptions,
            final(self).config == old(self).config,
            final(self).owner == old(self).owner,
            final(self).next_invoice_id == old(self).next_invoice_id,
    {
        let (inv_amount, inv_token) = match self.invoices.get(&request.invoice_id) {
            Some(inv) => {
                let paid = match inv.status {
                    InvoiceStatus::Paid => true,
                    _ => false,
                };
                if paid {
                    return Err(String::from_str("Invoice already paid"));
                }
                if let Some(expires_at) = inv.expires_at {
                    if now > expires_at {
                        return Err(String::from_str("Invoice expired"));
                    }
                }
                if !inv.token.symbol.eq(&request.token_symbol) {
                    return Err(String::from_str("Token mismatch"));
                }
                (inv.amount, inv.token.clone())
            },
            None => {
                return Err(String::from_str("Invoice not found"));
            },
        };
        let mut discount: u64 = 0;
        let mut coupon_id: Option<String> = None;
        if let Some(code) = &request.coupon_code {
            match self.coupons.validate_and_use_coupon(
                code,
                request.amount,
                &request.token_symbol,
                caller,
                now,
            ) {
                Ok((used_coupon_id, d)) => {
                    discount = d;
                    coupon_id = Some(used_coupon_id);
                },
                Err(_) => {
                    // a coupon failure never aborts the payment
                },
            }
        }
        let final_amount = request.amount - discount;
        if final_amount < inv_amount {
            return Err(String::from_str("Payment amount insufficient after discount"));
        }
        let transaction_id = make_id("tx_", self.next_transaction_id);
        self.next_transaction_id = self.next_transaction_id + 1;
        let merchant_fee = crate::merchant_fee_of(final_amount, self.config.merchant_fee);
        let net_amount = final_amount - merchant_fee;
        let transfer_amount = if inv_token.fee > u64::MAX - final_amount {
            u64::MAX
        } else {
            final_amount + inv_token.fee
        };
        Ok(
            PreparedPayment {
                transaction_id,
                invoice_id: request.invoice_id,
                payer: caller.clone(),
                token: inv_token,
                amount_original: request.amount,
                discount_applied: discount,
                final_amount,
                merchant_fee,
                net_amount,
                transfer_amount,
                coupon_id,
                metadata: request.metadata,
            },
        )
    }

    /// Everything of a payment that runs after the external transfer
    /// came back: the transaction is recorded whatever happened, and
    /// only a successful transfer marks the invoice paid, credits the
    /// balance and feeds the product and dialog figures.
    pub fn finish_payment(
        &mut self,
        prepared: PreparedPayment,
        outcome: Result<u64, String>,
        now: u64,
    ) -> (r: PaymentResult)
        requires
            old(self).wf(),
        ensures
            final(self).wf(),
            final(self).transactions.m() == old(self).transactions.m().insert(
                prepared@.transaction_id,
                PaymentTransactionView {
                    id: prepared@.transaction_id,
                    from: prepared@.payer,
                    to: old(self).owner@,
                    token: prepared@.token,
                    amount: prepared@.final_amount,
                    fee: prepared@.token.fee,
                    merchant_fee: prepared@.merchant_fee,
                    timestamp: now,
                    status: (match outcome {
                        Ok(b) => TransactionStatusView::Completed,
                        Err(m) => TransactionStatusView::Failed(m@),
                    }),
                    metadata: tx_meta(prepared@),
                    payment_method: PaymentMethod::TransferFrom,
                    block_index: (match outcome {
                        Ok(b) => Option::Some(b),
                        Err(m) => Option::None,
                    }),
                },
            ),
            (outcome is Ok && old(self).invoices.m().contains_key(prepared@.invoice_id)) ==> {
                let inv = old(self).invoices.m()[prepared@.invoice_id];
                &&& final(self).invoices.m() == old(self).invoices.m().insert(
                    prepared@.invoice_id,
                    PaymentInvoiceView { status: InvoiceStatus::Paid, ..inv },
                )
                &&& final(self).balances.m() == old(self).balances.m().insert(
                    inv.token.symbol,
                    sat_add64(
                        spec_balance(old(self).balances.m(), inv.token.symbol),
                        prepared@.net_amount,
                    ),
                )
                &&& (match meta_lookup(inv.metadata, "product_id"@) {
                    Option::Some(pid) => final(self).products.stats.m() == stats_after_sale(
                        old(self).products.stats.m(),
                        pid,
                        prepared@.final_amount,
                        now,
                    ) && final(self).products.products.m() == products_after_sale(
                        old(self).products.products.m(),
                        pid,
                        now,
                    ),
                    Option::None => final(self).products == old(self).products,
                })
                &&& final(self).modals.stats.m() == modal_stats_after_payment(
                    old(self).modals.stats.m(),
                    prepared@.final_amount,
                )
            },
            (outcome is Err || !old(self).invoices.m().contains_key(prepared@.invoice_id)) ==> {
                &&& final(self).invoices.m() == old(self).invoices.m()
                &&& final(self).balances == old(self).balances
                &&& final(self).products == old(self).products
                &&& final(self).modals == old(self).modals
            },
            r@ == (PaymentResultView {
                transaction_id: prepared@.transaction_id,
                amount_paid: prepared@.amount_original,
                discount_applied: prepared@.discount_applied,
                final_amount: prepared@.final_amount,
                block_index: (match outcome {
                    Ok(b) => Option::Some(b),
                    Err(m) => Option::None,
                }),
                payment_method: PaymentMethod::TransferFrom,
            }),
            final(self).coupons == old(self).coupons,
            final(self).subscriptions == old(self).subscriptions,
            final(self).config == old(self).config,
            final(self).owner == old(self).owner,
            final(self).next_invoice_id == old(self).next_invoice_id,
            final(self).next_transaction_id == old(self).next_transaction_id,
    {
        let ghost pv = prepared@;
        let PreparedPayment {
            transaction_id,
            invoice_id,
            payer,
            token,
            amount_original,
            discount_applied,
            final_amount,
            merchant_fee,
            net_amount,
            transfer_amount: _,
            coupon_id,
            metadata,
        } = prepared;
        let (status, block_index, succeeded) = match outcome {
            Ok(block_idx) => (TransactionStatus::Completed, Some(block_idx), true),
            Err(err) => (TransactionStatus::Failed(err), None, false),
        };
        let mut md = metadata;
        if let Some(cid) = &coupon_id {
            md.push((String::from_str("coupon_id"), cid.clone()));
            md.push((String::from_str("discount_applied"), u64_to_string(discount_applied)));
        }
        md.push((String::from_str("original_amount"), u64_to_string(amount_original)));
        md.push((String::from_str("final_amount"), u64_to_string(final_amount)));
        proof {
            assert(pairs_view(md@) =~= tx_meta(pv));
        }
        let tx = PaymentTransaction {
            id: transaction_id.clone(),
            from: payer,
            to: self.owner.clone(),
            token: token.clone(),
            amount: final_amount,
            fee: token.fee,
            merchant_fee,
            timestamp: now,
            status,
            metadata: md,
            payment_method: PaymentMethod::TransferFrom,
            block_index,
        };
        if succeeded {
            proof {
                self.invoices.lemma_filed_under_own_key(invoice_id@);
            }
            match self.invoices.remove(&invoice_id) {
                Some(mut inv) => {
                    inv.status = InvoiceStatus::Paid;
                    let token_sym = inv.token.symbol.clone();
                    let pid_opt = crate::util::find_meta_value(
                        &inv.metadata,
                        &String::from_str("product_id"),
                    );
                    self.invoices.insert(inv);
                    self.balances.credit(&token_sym, net_amount);
                    if let Some(pid) = &pid_opt {
                        self.products.update_product_sales_stats(pid, final_amount, now);
                    }
                    self.modals.track_payment_analytics(&token_sym, final_amount);
                },
                None => {},
            }
        }
        self.transactions.insert(tx);
        PaymentResult {
            transaction_id,
            amount_paid: amount_original,
            discount_applied,
            final_amount,
            block_index,
            payment_method: PaymentMethod::TransferFrom,
        }
    }
}

impl TenantState {
    /// The position of the first supported token carrying `symbol`.
    fn find_token_position(&self, symbol: &String) -> (r: Option<usize>)
        ensures
            match r {
                Some(i) => crate::config::find_token_idx(
                    self.config@.supported_tokens,
                    symbol@,
                ) == Some(i as int) && i < self.config@.supported_tokens.len(),
                None => crate::config::find_token_idx(self.config@.supported_tokens, symbol@)
                    is None,
            },
    {
        let n = self.config.supported_tokens.len();
        let mut i: usize = 0;
        while i < n
            invariant
                n == self.config@.supported_tokens.len(),
                i <= n,
                forall|j: int|
                    0 <= j < i ==> (#[trigger] self.config@.supported_tokens[j]).symbol != symbol@,
            decreases n - i,
        {
            if self.config.supported_tokens[i].symbol.eq(symbol) {
                proof {
                    crate::config::lemma_find_token_at(
                        self.config@.supported_tokens,
                        symbol@,
                        i as int,
                    );
                }
                return Some(i);
            }
            i += 1;
        }
        proof {
            crate::config::lemma_find_token_none(self.config@.supported_tokens, symbol@);
        }
        None
    }

    /// Adds a token to the supported set; the entry must be sound and
    /// collide with no existing symbol or ledger reference.
    pub fn add_supported_token(&mut self, token: crate::config::TokenConfig, caller: &Principal)
        -> (r: Result<(), String>)
        requires
            old(self).wf(),
        ensures
            final(self).wf(),
            r is Ok <==> (caller@ == old(self).owner@ && crate::config::token_entry_valid(token@)
                && !crate::config::token_conflict(
                old(self).config@.supported_tokens,
                token@.symbol,
                token@.canister_id,
            )),
            r is Ok ==> final(self).config@.supported_tokens == old(
                self,
            ).config@.supported_tokens.push(token@),
            r is Err ==> final(self).config@ == old(self).config@,
            final(self).config@.merchant_fee == old(self).config@.merchant_fee,
            final(self).owner == old(self).owner,
            final(self).invoices == old(self).invoices,
            final(self).balances == old(self).balances,
    {
        if !caller.eq_p(&self.owner) {
            return Err(String::from_str("Only the owner can add tokens"));
        }
        if token.symbol.as_str().unicode_len() == 0 {
            return Err(String::from_str("Token symbol cannot be empty"));
        }
        if token.name.as_str().unicode_len() == 0 {
            return Err(String::from_str("Token name cannot be empty"));
        }
        if token.canister_id.is_anonymous() {
            return Err(String::from_str("Token canister ID cannot be anonymous"));
        }
        let n = self.config.supported_tokens.len();
        let mut i: usize = 0;
        while i < n
            invariant
                self == old(self),
                self.wf(),
                n == self.config@.supported_tokens.len(),
                i <= n,
                forall|j: int|
                    0 <= j < i ==> !((#[trigger] self.config@.supported_tokens[j]).symbol
                        == token@.symbol || self.config@.supported_tokens[j].canister_id
                        == token@.canister_id),
            decreases n - i,
        {
            let t = &self.config.supported_tokens[i];
            if t.symbol.eq(&token.symbol) || t.canister_id.eq_p(&token.canister_id) {
                proof {
                    assert((old(self).config@.supported_tokens[i as int]).symbol == token@.symbol
                        || old(self).config@.supported_tokens[i as int].canister_id
                        == token@.canister_id);
                }
                return Err(
                    String::from_str("Token with this symbol or canister ID already exists"),
                );
            }
            i += 1;
        }
        self.config.supported_tokens.push(token);
        proof {
            assert(self.config@.supported_tokens =~= old(self).config@.supported_tokens.push(
                token@,
            ));
        }
        Ok(())
    }

    /// Strikes every entry carrying `token_symbol` from the supported
    /// set; the last remaining token cannot be removed.
    pub fn remove_supported_token(&mut self, token_symbol: &String, caller: &Principal) -> (r:
        Result<(), String>)
        requires
            old(self).wf(),
        ensures
            final(self).wf(),
            r is Ok <==> (caller@ == old(self).owner@ && crate::config::has_token(
                old(self).config@.supported_tokens,
                token_symbol@,
            ) && crate::config::tokens_without(
                old(self).config@.supported_tokens,
                token_symbol@,
            ).len() >= 1),
            r is Ok ==> final(self).config@.supported_tokens == crate::config::tokens_without(
                old(self).config@.supported_tokens,
                token_symbol@,
            ),
            r is Err ==> final(self).config@ == old(self).config@,
            final(self).config@.merchant_fee == old(self).config@.merchant_fee,
            final(self).owner == old(self).owner,
            final(self).invoices == old(self).invoices,
            final(self).balances == old(self).balances,
    {
        if !caller.eq_p(&self.owner) {
            return Err(String::from_str("Only the owner can remove tokens"));
        }
        if !crate::registry::token_list_has_symbol(&self.config.supported_tokens, token_symbol) {
            return Err(String::from_str("Token not found"));
        }
        let ghost toks = self.config@.supported_tokens;
        let n = self.config.supported_tokens.len();
        let mut kept: Vec<crate::config::TokenConfig> = Vec::new();
        let mut i: usize = 0;
        proof {
            assert(toks.take(0) =~= Seq::<crate::config::TokenConfigView>::empty());
            assert(crate::config::tokens_view(kept@) =~= crate::config::tokens_without(
                toks.take(0),
                token_symbol@,
            ));
        }
        while i < n
            invariant
                self == old(self),
                self.wf(),
                toks == self.config@.supported_tokens,
                n == toks.len(),
                i <= n,
                crate::config::tokens_view(kept@) == crate::config::tokens_without(
                    toks.take(i as int),
                    token_symbol@,
                ),
            decreases n - i,
        {
            proof {
                assert(toks.take(i + 1).drop_last() =~= toks.take(i as int));
                assert(toks.take(i + 1).last() == toks[i as int]);
            }
            let t = &self.config.supported_tokens[i];
            if !t.symbol.eq(token_symbol) {
                kept.push(t.clone());
            }
            proof {
                assert(crate::config::tokens_view(kept@) =~= crate::config::tokens_without(
                    toks.take(i + 1),
                    token_symbol@,
                ));
            }
            i += 1;
        }
        proof {
            assert(toks.take(n as int) =~= toks);
        }
        if kept.len() == 0 {
            return Err(String::from_str("Cannot remove the last supported token"));
        }
        self.config.supported_tokens = kept;
        Ok(())
    }

    /// Rewrites the first supported token carrying `token_symbol`; a
    /// changed symbol or ledger reference must not collide with another
    /// entry.
    pub fn update_supported_token(
        &mut self,
        token_symbol: &String,
        updated_token: crate::config::TokenConfig,
        caller: &Principal,
    ) -> (r: Result<(), String>)
        requires
            old(self).wf(),
        ensures
            final(self).wf(),
            r is Ok <==> (caller@ == old(self).owner@ && crate::config::token_entry_valid(
                updated_token@,
            ) && crate::config::find_token_idx(old(self).config@.supported_tokens, token_symbol@)
                is Some && {
                let i = crate::config::find_token_idx(
                    old(self).config@.supported_tokens,
                    token_symbol@,
                )->Some_0;
                let prev = old(self).config@.supported_tokens[i];
                &&& (prev.symbol != updated_token@.symbol ==> !crate::config::has_token(
                    old(self).config@.supported_tokens,
                    updated_token@.symbol,
                ))
                &&& (prev.canister_id != updated_token@.canister_id ==> !(exists|j: int|
                    0 <= j < old(self).config@.supported_tokens.len() && (#[trigger] old(
                        self,
                    ).config@.supported_tokens[j]).canister_id == updated_token@.canister_id))
            }),
            r is Ok ==> final(self).config@.supported_tokens == old(
                self,
            ).config@.supported_tokens.update(
                crate::config::find_token_idx(
                    old(self).config@.supported_tokens,
                    token_symbol@,
                )->Some_0,
                updated_token@,
            ),
            r is Err ==> final(self).config@ == old(self).config@,
            final(self).config@.merchant_fee == old(self).config@.merchant_fee,
            final(self).owner == old(self).owner,
            final(self).invoices == old(self).invoices,
            final(self).balances == old(self).balances,
    {
        if !caller.eq_p(&self.owner) {
            return Err(String::from_str("Only the owner can update tokens"));
        }
        if updated_token.symbol.as_str().unicode_len() == 0 {
            return Err(String::from_str("Token symbol cannot be empty"));
        }
        if updated_token.name.as_str().unicode_len() == 0 {
            return Err(String::from_str("Token name cannot be empty"));
        }
        if updated_token.canister_id.is_anonymous() {
            return Err(String::from_str("Token canister ID cannot be anonymous"));
        }
        let ghost toks = self.config@.supported_tokens;
        let idx: usize = match self.find_token_position(token_symbol) {
            Some(i) => i,
            None => {
                return Err(String::from_str("Token not found"));
            },
        };
        let symbol_changed = !self.config.supported_tokens[idx].symbol.eq(&updated_token.symbol);
        let canister_changed = !self.config.supported_tokens[idx].canister_id.eq_p(
            &updated_token.canister_id,
        );
        if symbol_changed {
            let m = self.config.supported_tokens.len();
            let mut j: usize = 0;
            while j < m
                invariant
                    self == old(self),
                    self.wf(),
                    toks == self.config@.supported_tokens,
                    m == toks.len(),
                    j <= m,
                    crate::config::find_token_idx(toks, token_symbol@) == Some(idx as int),
                    idx < m,
                    toks[idx as int].symbol != updated_token@.symbol,
                    crate::config::token_entry_valid(updated_token@),
                    forall|t: int| 0 <= t < j ==> (#[trigger] toks[t]).symbol != updated_token@.symbol,
                decreases m - j,
            {
                if self.config.supported_tokens[j].symbol.eq(&updated_token.symbol) {
                    proof {
                        assert((toks[j as int]).symbol == updated_token@.symbol);
                    }
                    return Err(String::from_str("A token with the new symbol already exists"));
                }
                j += 1;
            }
        }
        if canister_changed {
            let m = self.config.supported_tokens.len();
            let mut j: usize = 0;
            while j < m
                invariant
                    self == old(self),
                    self.wf(),
                    toks == self.config@.supported_tokens,
                    m == toks.len(),
                    j <= m,
                    crate::config::find_token_idx(toks, token_symbol@) == Some(idx as int),
                    idx < m,
                    toks[idx as int].canister_id != updated_token@.canister_id,
                    toks[idx as int].symbol == updated_token@.symbol
                        || !crate::config::has_token(toks, updated_token@.symbol),
                    crate::config::token_entry_valid(updated_token@),
                    forall|t: int|
                        0 <= t < j ==> (#[trigger] toks[t]).canister_id
                            != updated_token@.canister_id,
                decreases m - j,
            {
                if self.config.supported_tokens[j].canister_id.eq_p(&updated_token.canister_id) {
                    proof {
                        assert((toks[j as int]).canister_id == updated_token@.canister_id);
                    }
                    return Err(
                        String::from_str("A token with the new canister ID already exists"),
                    );
                }
                j += 1;
            }
        }
        self.config.supported_tokens[idx] = updated_token;
        proof {
            assert(self.config@.supported_tokens =~= toks.update(
                crate::config::find_token_idx(toks, token_symbol@)->Some_0,
                self.config.supported_tokens@[idx as int]@,
            ));
        }
        Ok(())
    }

    /// Flips the first supported token carrying `token_symbol` between
    /// active and inactive, handing back the new state.
    pub fn toggle_token_status(&mut self, token_symbol: &String, caller: &Principal) -> (r: Result<
        bool,
        String,
    >)
        requires
            old(self).wf(),
        ensures
            final(self).wf(),
            r is Ok <==> (caller@ == old(self).owner@ && crate::config::find_token_idx(
                old(self).config@.supported_tokens,
                token_symbol@,
            ) is Some),
            r matches Ok(b) ==> {
                let i = crate::config::find_token_idx(
                    old(self).config@.supported_tokens,
                    token_symbol@,
                )->Some_0;
                let prev = old(self).config@.supported_tokens[i];
                let v = crate::config::TokenConfigView { is_active: !prev.is_active, ..prev };
                &&& b == !prev.is_active
                &&& final(self).config@.supported_tokens == old(
                    self,
                ).config@.supported_tokens.update(i, v)
            },
            r is Err ==> final(self).config@ == old(self).config@,
            final(self).config@.merchant_fee == old(self).config@.merchant_fee,
            final(self).owner == old(self).owner,
            final(self).invoices == old(self).invoices,
            final(self).balances == old(self).balances,
    {
        if !caller.eq_p(&self.owner) {
            return Err(String::from_str("Only the owner can toggle token status"));
        }
        let ghost toks = self.config@.supported_tokens;
        let i: usize = match self.find_token_position(token_symbol) {
            Some(i) => i,
            None => {
                return Err(String::from_str("Token not found"));
            },
        };
        let mut t = self.config.supported_tokens[i].clone();
        t.is_active = !t.is_active;
        let new_status = t.is_active;
        self.config.supported_tokens[i] = t;
        proof {
            assert(self.config@.supported_tokens =~= toks.update(
                i as int,
                self.config.supported_tokens@[i as int]@,
            ));
        }
        Ok(new_status)
    }

    /// A page of the transaction record, `offset` records in and at
    /// most `limit` long.
    pub fn get_transaction_history(&self, limit: u64, offset: u64) -> (r: Vec<
        &PaymentTransaction,
    >)
        ensures
            crate::util::ref_views(r@) == self.transactions.sq().subrange(
                (if offset > self.transactions.sq().len() {
                    self.transactions.sq().len() as int
                } else {
                    offset as int
                }),
                (if offset + limit > self.transactions.sq().len() {
                    self.transactions.sq().len() as int
                } else {
                    offset + limit
                }),
            ),
    {
        let n = self.transactions.len();
        let ghost sq = self.transactions.sq();
        let start: usize = if offset > n as u64 {
            n
        } else {
            offset as usize
        };
        let stop: usize = if limit > (n - start) as u64 {
            n
        } else {
            start + limit as usize
        };
        let mut r: Vec<&PaymentTransaction> = Vec::new();
        let mut i: usize = start;
        while i < stop
            invariant
                sq == self.transactions.sq(),
                n == sq.len(),
                start <= i <= stop <= n,
                r@.len() == i - start,
                forall|k: int| 0 <= k < r@.len() ==> (#[trigger] r@[k])@ == sq[start + k],
            decreases stop - i,
        {
            r.push(self.transactions.nth(i));
            i += 1;
        }
        proof {
            assert(crate::util::ref_views(r@) =~= sq.subrange(start as int, stop as int));
            assert(sq.subrange(start as int, stop as int) =~= sq.subrange(
                (if offset > sq.len() {
                    sq.len() as int
                } else {
                    offset as int
                }),
                (if offset + limit > sq.len() {
                    sq.len() as int
                } else {
                    offset + limit
                }),
            ));
        }
        r
    }

    /// Opens an invoice for a quantity of one product, carrying the
    /// product trail in its metadata.
    pub fn create_invoice_for_product(
        &mut self,
        product_id: &String,
        quantity: u32,
        metadata: Vec<(String, String)>,
        now: u64,
    ) -> (r: Result<PaymentInvoice, String>)
        requires
            old(self).wf(),
            old(self).next_invoice_id < u64::MAX,
            now + INVOICE_TTL_NANOS <= u64::MAX,
            old(self).products.products.m().contains_key(product_id@) ==> old(
                self,
            ).products.products.m()[product_id@].price * quantity <= u64::MAX,
        ensures
            final(self).wf(),
            r is Ok <==> (quantity > 0 && old(self).products.products.m().contains_key(product_id@)
                && old(self).products.products.m()[product_id@].status == ProductStatus::Active && (
            match old(self).products.products.m()[product_id@].inventory_count {
                Option::Some(c) => c >= quantity,
                Option::None => true,
            }) && has_active_token(
                old(self).config@.supported_tokens,
                old(self).products.products.m()[product_id@].token_symbol,
            )),
            r matches Ok(inv) ==> {
                let p = old(self).products.products.m()[product_id@];
                let ti = crate::config::find_active_idx(
                    old(self).config@.supported_tokens,
                    p.token_symbol,
                )->Some_0;
                let meta = pairs_view(metadata@).push(("product_id"@, product_id@)).push(
                    ("product_name"@, p.name),
                ).push(("quantity"@, dec_digits(quantity as int))).push(
                    ("unit_price"@, dec_digits(p.price as int)),
                ) + (match p.category {
                    Option::Some(c) => seq![("category"@, c)],
                    Option::None => Seq::<(Seq<char>, Seq<char>)>::empty(),
                });
                let v = PaymentInvoiceView {
                    id: serial_id("inv_"@, old(self).next_invoice_id as int),
                    merchant: old(self).owner@,
                    amount: (p.price * quantity) as u64,
                    token: old(self).config@.supported_tokens[ti],
                    description: p.name + " (Qty: "@ + dec_digits(quantity as int) + ")"@,
                    metadata: meta,
                    expires_at: Option::Some((now + INVOICE_TTL_NANOS) as u64),
                    created_at: now,
                    status: InvoiceStatus::Created,
                };
                &&& inv@ == v
                &&& final(self).invoices.m() == old(self).invoices.m().insert(v.id, v)
                &&& final(self).next_invoice_id == old(self).next_invoice_id + 1
            },
            r is Err ==> final(self).invoices.m() == old(self).invoices.m()
                && final(self).next_invoice_id == old(self).next_invoice_id,
            final(self).products == old(self).products,
            final(self).transactions == old(self).transactions,
            final(self).balances == old(self).balances,
            final(self).config == old(self).config,
            final(self).owner == old(self).owner,
    {
        if quantity == 0 {
            return Err(String::from_str("Quantity must be greater than 0"));
        }
        let (p_name, p_price, p_symbol, p_category) = match self.products.products.get(
            product_id,
        ) {
            Some(p) => {
                let active = match p.status {
                    ProductStatus::Active => true,
                    _ => false,
                };
                if !active {
                    return Err(String::from_str("Product is not available for purchase"));
                }
                if let Some(inventory) = p.inventory_count {
                    if inventory < quantity {
                        return Err(String::from_str("Insufficient inventory"));
                    }
                }
                let cat = match &p.category {
                    Some(c) => Some(c.clone()),
                    None => None,
                };
                (p.name.clone(), p.price, p.token_symbol.clone(), cat)
            },
            None => {
                return Err(String::from_str("Product not found"));
            },
        };
        let token = match self.config.find_active_token(&p_symbol) {
            Some(t) => t,
            None => {
                return Err(String::from_str("Product token not supported or inactive"));
            },
        };
        let total_amount = p_price * (quantity as u64);
        let id = make_id("inv_", self.next_invoice_id);
        self.next_invoice_id = self.next_invoice_id + 1;
        let mut meta = metadata;
        meta.push((String::from_str("product_id"), product_id.clone()));
        meta.push((String::from_str("product_name"), p_name.clone()));
        meta.push((String::from_str("quantity"), u64_to_string(quantity as u64)));
        meta.push((String::from_str("unit_price"), u64_to_string(p_price)));
        match &p_category {
            Some(c) => {
                meta.push((String::from_str("category"), c.clone()));
            },
            None => {},
        }
        let description = p_name.concat(" (Qty: ").concat(
            u64_to_string(quantity as u64).as_str(),
        ).concat(")");
        let invoice = PaymentInvoice {
            id,
            merchant: self.owner.clone(),
            amount: total_amount,
            token,
            description,
            metadata: meta,
            expires_at: Some(now + INVOICE_TTL_NANOS),
            created_at: now,
            status: InvoiceStatus::Created,
        };
        proof {
            let p = old(self).products.products.m()[product_id@];
            assert(invoice@.metadata =~= pairs_view(metadata@).push(
                ("product_id"@, product_id@),
            ).push(("product_name"@, p.name)).push(("quantity"@, dec_digits(quantity as int))).push(
                ("unit_price"@, dec_digits(p.price as int)),
            ) + (match p.category {
                Option::Some(c) => seq![("category"@, c)],
                Option::None => Seq::<(Seq<char>, Seq<char>)>::empty(),
            }));
        }
        self.invoices.insert(invoice.clone());
        Ok(invoice)
    }
}

} // verus!
