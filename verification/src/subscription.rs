use vstd::prelude::*;
use vstd::string::StringExecFns;
use vstd::string::StrSliceExecFns;

use crate::config::{has_active_token, UserCanisterConfig};
use crate::principal::Principal;
use crate::table::{Table, TableItem};
use crate::util::{dec_digits, make_id, pairs_view, ref_views, strings_view, u64_to_string};

verus! {

pub const NANOS_PER_SECOND: u64 = 1_000_000_000;

pub const NANOS_PER_DAY: u64 = 86_400_000_000_000;

/// Where a subscription stands in its life cycle.
#[derive(Clone, Copy, PartialEq, Eq, Structural, Debug)]
pub enum SubscriptionStatus {
    Active,
    Paused,
    Cancelled,
    Expired,
    PendingPayment,
}

/// How often a subscription bills. The named intervals are fixed-length
/// approximations; calendar arithmetic is out of scope.
#[derive(Clone, Copy, PartialEq, Eq, Structural, Debug)]
pub enum BillingInterval {
    Daily,
    Weekly,
    Monthly,
    Quarterly,
    Yearly,
    Custom(u64),
}

/// The length of one billing interval, in nanoseconds.
pub open spec fn interval_nanos(i: BillingInterval) -> int {
    match i {
        BillingInterval::Daily => NANOS_PER_DAY as int,
        BillingInterval::Weekly => 7 * (NANOS_PER_DAY as int),
        BillingInterval::Monthly => 30 * (NANOS_PER_DAY as int),
        BillingInterval::Quarterly => 90 * (NANOS_PER_DAY as int),
        BillingInterval::Yearly => 365 * (NANOS_PER_DAY as int),
        BillingInterval::Custom(seconds) => seconds * (NANOS_PER_SECOND as int),
    }
}

/// The moment one interval after `current_time`.
pub fn calculate_next_billing_date(current_time: u64, billing_interval: &BillingInterval) -> (r:
    u64)
    requires
        current_time + interval_nanos(*billing_interval) <= u64::MAX,
    ensures
        r == current_time + interval_nanos(*billing_interval),
{
    match billing_interval {
        BillingInterval::Daily => current_time + NANOS_PER_DAY,
        BillingInterval::Weekly => current_time + 7 * NANOS_PER_DAY,
        BillingInterval::Monthly => current_time + 30 * NANOS_PER_DAY,
        BillingInterval::Quarterly => current_time + 90 * NANOS_PER_DAY,
        BillingInterval::Yearly => current_time + 365 * NANOS_PER_DAY,
        BillingInterval::Custom(seconds) => current_time + *seconds * NANOS_PER_SECOND,
    }
}

/// A plan merchants offer: a price in one supported token, a billing
/// interval, an optional trial, and an optional subscriber cap.
#[derive(Debug)]
pub struct SubscriptionPlan {
    pub plan_id: String,
    pub name: String,
    pub description: String,
    pub price: u64,
    pub token: String,
    pub billing_interval: BillingInterval,
    pub trial_period_days: Option<u32>,
    pub max_subscriptions: Option<u32>,
    pub features: Vec<String>,
    pub is_active: bool,
    pub created_at: u64,
    pub updated_at: u64,
}

pub struct SubscriptionPlanView {
    pub plan_id: Seq<char>,
    pub name: Seq<char>,
    pub description: Seq<char>,
    pub price: u64,
    pub token: Seq<char>,
    pub billing_interval: BillingInterval,
    pub trial_period_days: Option<u32>,
    pub max_subscriptions: Option<u32>,
    pub features: Seq<Seq<char>>,
    pub is_active: bool,
    pub created_at: u64,
    pub updated_at: u64,
}

impl View for SubscriptionPlan {
    type V = SubscriptionPlanView;

    open spec fn view(&self) -> SubscriptionPlanView {
        SubscriptionPlanView {
            plan_id: self.plan_id@,
            name: self.name@,
            description: self.description@,
            price: self.price,
            token: self.token@,
            billing_interval: self.billing_interval,
            trial_period_days: self.trial_period_days,
            max_subscriptions: self.max_subscriptions,
            features: strings_view(self.features@),
            is_active: self.is_active,
            created_at: self.created_at,
            updated_at: self.updated_at,
        }
    }
}

impl TableItem for SubscriptionPlan {
    open spec fn view_key(v: SubscriptionPlanView) -> Seq<char> {
        v.plan_id
    }

    fn key(&self) -> (k: &String) {
        &self.plan_id
    }
}

/// One subscriber's standing under a plan.
#[derive(Debug)]
pub struct Subscription {
    pub subscription_id: String,
    pub plan_id: String,
    pub subscriber: Principal,
    pub status: SubscriptionStatus,
    pub current_period_start: u64,
    pub current_period_end: u64,
    pub next_billing_date: u64,
    pub trial_end: Option<u64>,
    pub cancelled_at: Option<u64>,
    pub cancel_at_period_end: bool,
    pub total_payments: u64,
    pub payment_failures: u32,
    pub metadata: Vec<(String, String)>,
    pub created_at: u64,
    pub updated_at: u64,
}

pub struct SubscriptionView {
    pub subscription_id: Seq<char>,
    pub plan_id: Seq<char>,
    pub subscriber: Seq<char>,
    pub status: SubscriptionStatus,
    pub current_period_start: u64,
    pub current_period_end: u64,
    pub next_billing_date: u64,
    pub trial_end: Option<u64>,
    pub cancelled_at: Option<u64>,
    pub cancel_at_period_end: bool,
    pub total_payments: u64,
    pub payment_failures: u32,
    pub metadata: Seq<(Seq<char>, Seq<char>)>,
    pub created_at: u64,
    pub updated_at: u64,
}

impl View for Subscription {
    type V = SubscriptionView;

    open spec fn view(&self) -> SubscriptionView {
        SubscriptionView {
            subscription_id: self.subscription_id@,
            plan_id: self.plan_id@,
            subscriber: self.subscriber@,
            status: self.status,
            current_period_start: self.current_period_start,
            current_period_end: self.current_period_end,
            next_billing_date: self.next_billing_date,
            trial_end: self.trial_end,
            cancelled_at: self.cancelled_at,
            cancel_at_period_end: self.cancel_at_period_end,
            total_payments: self.total_payments,
            payment_failures: self.payment_failures,
            metadata: pairs_view(self.metadata@),
            created_at: self.created_at,
            updated_at: self.updated_at,
        }
    }
}

impl TableItem for Subscription {
    open spec fn view_key(v: SubscriptionView) -> Seq<char> {
        v.subscription_id
    }

    fn key(&self) -> (k: &String) {
        &self.subscription_id
    }
}

/// One recorded billing of a subscription.
#[derive(Debug)]
pub struct SubscriptionPayment {
    pub payment_id: String,
    pub subscription_id: String,
    pub amount: u64,
    pub token: String,
    pub billing_period_start: u64,
    pub billing_period_end: u64,
    pub payment_date: u64,
    pub status: String,
    pub transaction_id: Option<String>,
    pub failure_reason: Option<String>,
}

pub struct SubscriptionPaymentView {
    pub payment_id: Seq<char>,
    pub subscription_id: Seq<char>,
    pub amount: u64,
    pub token: Seq<char>,
    pub billing_period_start: u64,
    pub billing_period_end: u64,
    pub payment_date: u64,
    pub status: Seq<char>,
    pub transaction_id: Option<Seq<char>>,
    pub failure_reason: Option<Seq<char>>,
}

impl View for SubscriptionPayment {
    type V = SubscriptionPaymentView;

    open spec fn view(&self) -> SubscriptionPaymentView {
        SubscriptionPaymentView {
            payment_id: self.payment_id@,
            subscription_id: self.subscription_id@,
            amount: self.amount,
            token: self.token@,
            billing_period_start: self.billing_period_start,
            billing_period_end: self.billing_period_end,
            payment_date: self.payment_date,
            status: self.status@,
            transaction_id: match self.transaction_id {
                Option::Some(t) => Option::Some(t@),
                Option::None => Option::None,
            },
            failure_reason: match self.failure_reason {
                Option::Some(t) => Option::Some(t@),
                Option::None => Option::None,
            },
        }
    }
}

impl TableItem for SubscriptionPayment {
    open spec fn view_key(v: SubscriptionPaymentView) -> Seq<char> {
        v.payment_id
    }

    fn key(&self) -> (k: &String) {
        &self.payment_id
    }
}

/// A subscription that still occupies a seat under its plan: active or
/// waiting for its first payment.
pub open spec fn occupies_seat(s: SubscriptionView) -> bool {
    s.status == SubscriptionStatus::Active || s.status == SubscriptionStatus::PendingPayment
}

/// How many stored subscriptions occupy a seat under `plan_id`.
pub open spec fn seat_count(s: Seq<SubscriptionView>, plan_id: Seq<char>) -> int
    decreases s.len(),
{
    if s.len() == 0 {
        0
    } else {
        seat_count(s.drop_last(), plan_id) + (if s.last().plan_id == plan_id && occupies_seat(
            s.last(),
        ) {
            1int
        } else {
            0int
        })
    }
}

/// Whether `subscriber` already occupies a seat under `plan_id`.
pub open spec fn has_seat(s: Seq<SubscriptionView>, plan_id: Seq<char>, subscriber: Seq<char>)
    -> bool {
    exists|i: int|
        0 <= i < s.len() && (#[trigger] s[i]).plan_id == plan_id && s[i].subscriber == subscriber
            && occupies_seat(s[i])
}

/// The plans of `s` that are active, in order.
pub open spec fn active_plans(s: Seq<SubscriptionPlanView>) -> Seq<SubscriptionPlanView>
    decreases s.len(),
{
    if s.len() == 0 {
        Seq::<SubscriptionPlanView>::empty()
    } else {
        let rest = active_plans(s.drop_last());
        if s.last().is_active {
            rest.push(s.last())
        } else {
            rest
        }
    }
}

/// The subscriptions of `s` held by one subscriber, in order.
pub open spec fn subs_of(s: Seq<SubscriptionView>, subscriber: Seq<char>) -> Seq<SubscriptionView>
    decreases s.len(),
{
    if s.len() == 0 {
        Seq::<SubscriptionView>::empty()
    } else {
        let rest = subs_of(s.drop_last(), subscriber);
        if s.last().subscriber == subscriber {
            rest.push(s.last())
        } else {
            rest
        }
    }
}

/// The subscriptions of `s` under one plan, in order.
pub open spec fn subs_of_plan(s: Seq<SubscriptionView>, plan_id: Seq<char>) -> Seq<SubscriptionView>
    decreases s.len(),
{
    if s.len() == 0 {
        Seq::<SubscriptionView>::empty()
    } else {
        let rest = subs_of_plan(s.drop_last(), plan_id);
        if s.last().plan_id == plan_id {
            rest.push(s.last())
        } else {
            rest
        }
    }
}

/// The payments of `s` under one subscription, in order.
pub open spec fn payments_of(s: Seq<SubscriptionPaymentView>, subscription_id: Seq<char>) -> Seq<
    SubscriptionPaymentView,
>
    decreases s.len(),
{
    if s.len() == 0 {
        Seq::<SubscriptionPaymentView>::empty()
    } else {
        let rest = payments_of(s.drop_last(), subscription_id);
        if s.last().subscription_id == subscription_id {
            rest.push(s.last())
        } else {
            rest
        }
    }
}

/// How many subscriptions of `s` are active.
pub open spec fn active_sub_count(s: Seq<SubscriptionView>) -> int
    decreases s.len(),
{
    if s.len() == 0 {
        0
    } else {
        active_sub_count(s.drop_last()) + (if s.last().status == SubscriptionStatus::Active {
            1int
        } else {
            0int
        })
    }
}

/// One successful charge: the new period opens where the old one ended,
/// runs one interval, and the next billing date lands on its end.
pub open spec fn charge_step(pre: SubscriptionView, post: SubscriptionView, interval_len: int)
    -> bool {
    &&& post.current_period_start == pre.current_period_end
    &&& post.current_period_end == pre.current_period_end + interval_len
    &&& post.next_billing_date == post.current_period_end
}

/// Billing-date arithmetic is monotonic: across any run of successful
/// charges, the next billing date lands exactly N intervals after the
/// period end the run started from.
pub proof fn lemma_billing_dates_accumulate(trace: Seq<SubscriptionView>, interval_len: int)
    requires
        trace.len() >= 2,
        forall|i: int|
            0 <= i < trace.len() - 1 ==> charge_step(#[trigger] trace[i], trace[i + 1], interval_len),
    ensures
        trace.last().next_billing_date == trace[0].current_period_end + (trace.len() - 1)
            * interval_len,
    decreases trace.len(),
{
    if trace.len() == 2 {
        assert(charge_step(trace[0], trace[1], interval_len));
    } else {
        let rest = trace.drop_first();
        assert forall|i: int| 0 <= i < rest.len() - 1 implies charge_step(
            #[trigger] rest[i],
            rest[i + 1],
            interval_len,
        ) by {
            assert(rest[i] == trace[i + 1]);
            assert(rest[i + 1] == trace[i + 2]);
            assert(charge_step(trace[i + 1], trace[i + 2], interval_len));
        }
        lemma_billing_dates_accumulate(rest, interval_len);
        assert(rest.last() == trace.last());
        assert(rest[0] == trace[1]);
        assert(charge_step(trace[0], trace[1], interval_len));
        assert(trace[1].current_period_end == trace[0].current_period_end + interval_len);
        assert((rest.len() - 1) * interval_len + interval_len == (trace.len() - 1) * interval_len)
            by (nonlinear_arith)
            requires
                rest.len() == trace.len() - 1,
                trace.len() >= 3,
        ;
    }
}

/// A successful billing is one charge step: the renewed subscription
/// written by a charge relates to the old one exactly as
/// [`charge_step`] demands, whatever its cancellation flag did to the
/// status.
pub proof fn lemma_renewal_is_charge_step(
    s: SubscriptionView,
    renewed: SubscriptionView,
    interval_len: int,
)
    requires
        s.current_period_end + interval_len <= u64::MAX,
        renewed.current_period_start == s.current_period_end,
        renewed.current_period_end == s.current_period_end + interval_len,
        renewed.next_billing_date == renewed.current_period_end,
    ensures
        charge_step(s, renewed, interval_len),
{
}

/// The per-tenant subscription tables: the plan catalog, the
/// subscriptions, their payments, and the shared id counter.
pub struct SubscriptionEngine {
    pub plans: Table<SubscriptionPlan>,
    pub subs: Table<Subscription>,
    pub payments: Table<SubscriptionPayment>,
    pub next_subscription_id: u64,
}

impl SubscriptionEngine {
    pub open spec fn wf(&self) -> bool {
        &&& self.plans.wf()
        &&& self.subs.wf()
        &&& self.payments.wf()
    }

    pub fn new() -> (s: Self)
        ensures
            s.wf(),
            s.plans.sq() == Seq::<SubscriptionPlanView>::empty(),
            s.subs.sq() == Seq::<SubscriptionView>::empty(),
            s.payments.sq() == Seq::<SubscriptionPaymentView>::empty(),
            s.next_subscription_id == 1,
    {
        SubscriptionEngine {
            plans: Table::new(),
            subs: Table::new(),
            payments: Table::new(),
            next_subscription_id: 1,
        }
    }

    /// Files a new plan: only the owner may, the fields must pass, and
    /// the priced token must be supported and active.
    pub fn create_subscription_plan(
        &mut self,
        plan: SubscriptionPlan,
        config: &UserCanisterConfig,
        caller: &Principal,
        owner: &Principal,
        now: u64,
    ) -> (r: Result<String, String>)
        requires
            old(self).wf(),
            old(self).next_subscription_id < u64::MAX,
        ensures
            final(self).wf(),
            r is Ok <==> (caller@ == owner@ && plan@.name.len() > 0 && plan@.description.len() > 0
                && plan@.price > 0 && plan@.token.len() > 0 && has_active_token(
                config@.supported_tokens,
                plan@.token,
            )),
            r matches Ok(id) ==> {
                let v = SubscriptionPlanView {
                    plan_id: crate::util::serial_id(
                        "plan_"@,
                        old(self).next_subscription_id as int,
                    ),
                    created_at: now,
                    updated_at: now,
                    ..plan@
                };
                &&& id@ == v.plan_id
                &&& final(self).plans.m() == old(self).plans.m().insert(v.plan_id, v)
                &&& final(self).next_subscription_id == old(self).next_subscription_id + 1
            },
            r is Err ==> final(self).plans.m() == old(self).plans.m()
                && final(self).next_subscription_id == old(self).next_subscription_id,
            final(self).subs == old(self).subs,
            final(self).payments == old(self).payments,
    {
        if !caller.eq_p(owner) {
            return Err(String::from_str("Only the owner can create subscription plans"));
        }
        if plan.name.as_str().unicode_len() == 0 {
            return Err(String::from_str("Plan name cannot be empty"));
        }
        if plan.description.as_str().unicode_len() == 0 {
            return Err(String::from_str("Plan description cannot be empty"));
        }
        if plan.price == 0 {
            return Err(String::from_str("Plan price must be greater than 0"));
        }
        if plan.token.as_str().unicode_len() == 0 {
            return Err(String::from_str("Plan token cannot be empty"));
        }
        if !config.has_active_token_exec(&plan.token) {
            return Err(String::from_str("Token not supported or inactive"));
        }
        let id = make_id("plan_", self.next_subscription_id);
        self.next_subscription_id = self.next_subscription_id + 1;
        let stored = SubscriptionPlan {
            plan_id: id.clone(),
            name: plan.name,
            description: plan.description,
            price: plan.price,
            token: plan.token,
            billing_interval: plan.billing_interval,
            trial_period_days: plan.trial_period_days,
            max_subscriptions: plan.max_subscriptions,
            features: plan.features,
            is_active: plan.is_active,
            created_at: now,
            updated_at: now,
        };
        self.plans.insert(stored);
        Ok(id)
    }

    /// Rewrites a plan, keeping its identity and creation time.
    pub fn update_subscription_plan(
        &mut self,
        plan_id: &String,
        updated: SubscriptionPlan,
        config: &UserCanisterConfig,
        caller: &Principal,
        owner: &Principal,
        now: u64,
    ) -> (r: Result<(), String>)
        requires
            old(self).wf(),
        ensures
            final(self).wf(),
            r is Ok <==> (caller@ == owner@ && updated@.name.len() > 0 && updated@.description.len()
                > 0 && updated@.price > 0 && updated@.token.len() > 0 && has_active_token(
                config@.supported_tokens,
                updated@.token,
            ) && old(self).plans.m().contains_key(plan_id@)),
            r is Ok ==> {
                let prev = old(self).plans.m()[plan_id@];
                let v = SubscriptionPlanView {
                    plan_id: plan_id@,
                    created_at: prev.created_at,
                    updated_at: now,
                    ..updated@
                };
                final(self).plans.m() == old(self).plans.m().insert(plan_id@, v)
            },
            r is Err ==> final(self).plans.m() == old(self).plans.m(),
            final(self).subs == old(self).subs,
            final(self).payments == old(self).payments,
            final(self).next_subscription_id == old(self).next_subscription_id,
    {
        if !caller.eq_p(owner) {
            return Err(String::from_str("Only the owner can update subscription plans"));
        }
        if updated.name.as_str().unicode_len() == 0 {
            return Err(String::from_str("Plan name cannot be empty"));
        }
        if updated.description.as_str().unicode_len() == 0 {
            return Err(String::from_str("Plan description cannot be empty"));
        }
        if updated.price == 0 {
            return Err(String::from_str("Plan price must be greater than 0"));
        }
        if updated.token.as_str().unicode_len() == 0 {
            return Err(String::from_str("Plan token cannot be empty"));
        }
        if !config.has_active_token_exec(&updated.token) {
            return Err(String::from_str("Token not supported or inactive"));
        }
        let kept_created = match self.plans.get(plan_id) {
            Some(p) => p.created_at,
            None => {
                return Err(String::from_str("Subscription plan not found"));
            },
        };
        let stored = SubscriptionPlan {
            plan_id: plan_id.clone(),
            name: updated.name,
            description: updated.description,
            price: updated.price,
            token: updated.token,
            billing_interval: updated.billing_interval,
            trial_period_days: updated.trial_period_days,
            max_subscriptions: updated.max_subscriptions,
            features: updated.features,
            is_active: updated.is_active,
            created_at: kept_created,
            updated_at: now,
        };
        self.plans.insert(stored);
        Ok(())
    }

    pub fn get_subscription_plan(&self, plan_id: &String) -> (r: Option<&SubscriptionPlan>)
        requires
            self.wf(),
        ensures
            match r {
                Some(p) => self.plans.m().contains_key(plan_id@) && p@ == self.plans.m()[plan_id@],
                None => !self.plans.m().contains_key(plan_id@),
            },
    {
        self.plans.get(plan_id)
    }

    pub fn list_subscription_plans(&self) -> (r: Vec<&SubscriptionPlan>)
        ensures
            ref_views(r@) == self.plans.sq(),
    {
        self.plans.all()
    }

    pub fn list_active_subscription_plans(&self) -> (r: Vec<&SubscriptionPlan>)
        ensures
            ref_views(r@) == active_plans(self.plans.sq()),
    {
        let n = self.plans.len();
        let mut r: Vec<&SubscriptionPlan> = Vec::new();
        let mut i: usize = 0;
        proof {
            assert(self.plans.sq().take(0) =~= Seq::<SubscriptionPlanView>::empty());
            assert(ref_views(r@) =~= active_plans(self.plans.sq().take(0)));
        }
        while i < n
            invariant
                n == self.plans.sq().len(),
                i <= n,
                ref_views(r@) == active_plans(self.plans.sq().take(i as int)),
            decreases n - i,
        {
            let p = self.plans.nth(i);
            proof {
                assert(self.plans.sq().take(i + 1).drop_last() =~= self.plans.sq().take(i as int));
                assert(self.plans.sq().take(i + 1).last() == self.plans.sq()[i as int]);
            }
            if p.is_active {
                r.push(p);
            }
            proof {
                assert(ref_views(r@) =~= active_plans(self.plans.sq().take(i + 1)));
            }
            i += 1;
        }
        proof {
            assert(self.plans.sq().take(n as int) =~= self.plans.sq());
        }
        r
    }

    /// Strikes a plan that no subscription still occupies a seat under.
    pub fn delete_subscription_plan(
        &mut self,
        plan_id: &String,
        caller: &Principal,
        owner: &Principal,
    ) -> (r: Result<(), String>)
        requires
            old(self).wf(),
        ensures
            final(self).wf(),
            r is Ok <==> (caller@ == owner@ && seat_count(old(self).subs.sq(), plan_id@) == 0
                && old(self).plans.m().contains_key(plan_id@)),
            r is Ok ==> final(self).plans.m() == old(self).plans.m().remove(plan_id@),
            r is Err ==> final(self).plans.m() == old(self).plans.m(),
            final(self).subs == old(self).subs,
            final(self).payments == old(self).payments,
            final(self).next_subscription_id == old(self).next_subscription_id,
    {
        if !caller.eq_p(owner) {
            return Err(String::from_str("Only the owner can delete subscription plans"));
        }
        let occupied = self.count_plan_seats(plan_id);
        if occupied > 0 {
            return Err(
                String::from_str(
                    "Cannot delete plan with active subscriptions. Cancel subscriptions first.",
                ),
            );
        }
        if self.plans.remove(plan_id).is_none() {
            return Err(String::from_str("Subscription plan not found"));
        }
        Ok(())
    }

    /// How many subscriptions occupy a seat under `plan_id`.
    fn count_plan_seats(&self, plan_id: &String) -> (c: u64)
        ensures
            c == seat_count(self.subs.sq(), plan_id@),
    {
        let n = self.subs.len();
        let mut c: u64 = 0;
        let mut i: usize = 0;
        proof {
            assert(self.subs.sq().take(0) =~= Seq::<SubscriptionView>::empty());
        }
        while i < n
            invariant
                n == self.subs.sq().len(),
                i <= n,
                c <= i,
                c == seat_count(self.subs.sq().take(i as int), plan_id@),
            decreases n - i,
        {
            let s = self.subs.nth(i);
            proof {
                assert(self.subs.sq().take(i + 1).drop_last() =~= self.subs.sq().take(i as int));
                assert(self.subs.sq().take(i + 1).last() == self.subs.sq()[i as int]);
            }
            let seated = match s.status {
                SubscriptionStatus::Active => true,
                SubscriptionStatus::PendingPayment => true,
                _ => false,
            };
            if seated && s.plan_id.eq(plan_id) {
                c = c + 1;
            }
            i += 1;
        }
        proof {
            assert(self.subs.sq().take(n as int) =~= self.subs.sq());
        }
        c
    }

    /// Flips a plan between active and inactive.
    pub fn toggle_subscription_plan_status(
        &mut self,
        plan_id: &String,
        caller: &Principal,
        owner: &Principal,
        now: u64,
    ) -> (r: Result<bool, String>)
        requires
            old(self).wf(),
        ensures
            final(self).wf(),
            r is Ok <==> (caller@ == owner@ && old(self).plans.m().contains_key(plan_id@)),
            r matches Ok(b) ==> {
                let prev = old(self).plans.m()[plan_id@];
                let v = SubscriptionPlanView { is_active: !prev.is_active, updated_at: now, ..prev };
                &&& b == !prev.is_active
                &&& final(self).plans.m() == old(self).plans.m().insert(plan_id@, v)
            },
            r is Err ==> final(self).plans.m() == old(self).plans.m(),
            final(self).subs == old(self).subs,
            final(self).payments == old(self).payments,
            final(self).next_subscription_id == old(self).next_subscription_id,
    {
        if !caller.eq_p(owner) {
            return Err(String::from_str("Only the owner can toggle plan status"));
        }
        proof {
            self.plans.lemma_filed_under_own_key(plan_id@);
        }
        match self.plans.remove(plan_id) {
            Some(mut p) => {
                p.is_active = !p.is_active;
                p.updated_at = now;
                let new_status = p.is_active;
                self.plans.insert(p);
                Ok(new_status)
            },
            None => Err(String::from_str("Subscription plan not found")),
        }
    }

    /// Whether `subscriber` already occupies a seat under `plan_id`.
    fn has_plan_seat(&self, plan_id: &String, subscriber: &Principal) -> (r: bool)
        ensures
            r == has_seat(self.subs.sq(), plan_id@, subscriber@),
    {
        let n = self.subs.len();
        let mut i: usize = 0;
        while i < n
            invariant
                n == self.subs.sq().len(),
                i <= n,
                forall|j: int|
                    0 <= j < i ==> !((#[trigger] self.subs.sq()[j]).plan_id == plan_id@
                        && self.subs.sq()[j].subscriber == subscriber@ && occupies_seat(
                        self.subs.sq()[j],
                    )),
            decreases n - i,
        {
            let s = self.subs.nth(i);
            let seated = match s.status {
                SubscriptionStatus::Active => true,
                SubscriptionStatus::PendingPayment => true,
                _ => false,
            };
            if seated && s.plan_id.eq(plan_id) && s.subscriber.eq_p(subscriber) {
                proof {
                    assert((self.subs.sq()[i as int]).plan_id == plan_id@ && self.subs.sq()[
                        i as int
                    ].subscriber == subscriber@ && occupies_seat(self.subs.sq()[i as int]));
                }
                return true;
            }
            i += 1;
        }
        false
    }

    /// Opens a subscription: the plan must be live with a free seat, and
    /// the subscriber must not already hold one. A trial starts the
    /// subscription active; without one it waits for its first payment.
    pub fn create_subscription(
        &mut self,
        plan_id: &String,
        metadata: Vec<(String, String)>,
        caller: &Principal,
        now: u64,
    ) -> (r: Result<String, String>)
        requires
            old(self).wf(),
            old(self).next_subscription_id < u64::MAX,
            old(self).plans.m().contains_key(plan_id@) ==> {
                let p = old(self).plans.m()[plan_id@];
                &&& now + interval_nanos(p.billing_interval) <= u64::MAX
                &&& (p.trial_period_days matches Some(d) ==> now + d * (NANOS_PER_DAY as int)
                    <= u64::MAX)
            },
        ensures
            final(self).wf(),
            r is Ok <==> (old(self).plans.m().contains_key(plan_id@) && old(self).plans.m()[
                plan_id@
            ].is_active && (match old(self).plans.m()[plan_id@].max_subscriptions {
                Option::Some(max) => seat_count(old(self).subs.sq(), plan_id@) < max as int,
                Option::None => true,
            }) && !has_seat(old(self).subs.sq(), plan_id@, caller@)),
            r matches Ok(id) ==> {
                let p = old(self).plans.m()[plan_id@];
                let trial_end: Option<u64> = match p.trial_period_days {
                    Option::Some(d) => Option::Some((now + d * (NANOS_PER_DAY as int)) as u64),
                    Option::None => Option::None,
                };
                let period_end = (now + interval_nanos(p.billing_interval)) as u64;
                let v = SubscriptionView {
                    subscription_id: crate::util::serial_id(
                        "sub_"@,
                        old(self).next_subscription_id as int,
                    ),
                    plan_id: plan_id@,
                    subscriber: caller@,
                    status: (if trial_end is Some {
                        SubscriptionStatus::Active
                    } else {
                        SubscriptionStatus::PendingPayment
                    }),
                    current_period_start: now,
                    current_period_end: period_end,
                    next_billing_date: (match trial_end {
                        Option::Some(t) => t,
                        Option::None => period_end,
                    }),
                    trial_end,
                    cancelled_at: Option::None,
                    cancel_at_period_end: false,
                    total_payments: 0,
                    payment_failures: 0,
                    metadata: pairs_view(metadata@),
                    created_at: now,
                    updated_at: now,
                };
                &&& id@ == v.subscription_id
                &&& final(self).subs.m() == old(self).subs.m().insert(v.subscription_id, v)
                &&& final(self).next_subscription_id == old(self).next_subscription_id + 1
            },
            r is Err ==> final(self).subs.m() == old(self).subs.m()
                && final(self).next_subscription_id == old(self).next_subscription_id,
            final(self).plans == old(self).plans,
            final(self).payments == old(self).payments,
    {
        let (plan_active, plan_max, plan_interval, plan_trial) = match self.plans.get(plan_id) {
            Some(p) => (p.is_active, p.max_subscriptions, p.billing_interval, p.trial_period_days),
            None => {
                return Err(String::from_str("Subscription plan not found"));
            },
        };
        if !plan_active {
            return Err(String::from_str("Subscription plan is not active"));
        }
        if let Some(max_subscriptions) = plan_max {
            let seated = self.count_plan_seats(plan_id);
            if seated >= max_subscriptions as u64 {
                return Err(
                    String::from_str(
                        "Subscription plan has reached maximum number of subscriptions",
                    ),
                );
            }
        }
        if self.has_plan_seat(plan_id, caller) {
            return Err(String::from_str("User already has an active subscription to this plan"));
        }
        let id = make_id("sub_", self.next_subscription_id);
        self.next_subscription_id = self.next_subscription_id + 1;
        let trial_end: Option<u64> = match plan_trial {
            Some(days) => Some(now + (days as u64) * NANOS_PER_DAY),
            None => None,
        };
        let period_end = calculate_next_billing_date(now, &plan_interval);
        let (status, next_billing_date) = match trial_end {
            Some(t) => (SubscriptionStatus::Active, t),
            None => (SubscriptionStatus::PendingPayment, period_end),
        };
        let sub = Subscription {
            subscription_id: id.clone(),
            plan_id: plan_id.clone(),
            subscriber: caller.clone(),
            status,
            current_period_start: now,
            current_period_end: period_end,
            next_billing_date,
            trial_end,
            cancelled_at: None,
            cancel_at_period_end: false,
            total_payments: 0,
            payment_failures: 0,
            metadata,
            created_at: now,
            updated_at: now,
        };
        self.subs.insert(sub);
        Ok(id)
    }

    pub fn get_subscription(&self, subscription_id: &String) -> (r: Option<&Subscription>)
        requires
            self.wf(),
        ensures
            match r {
                Some(s) => self.subs.m().contains_key(subscription_id@) && s@ == self.subs.m()[
                    subscription_id@
                ],
                None => !self.subs.m().contains_key(subscription_id@),
            },
    {
        self.subs.get(subscription_id)
    }

    /// The subscriptions held by one subscriber, in storage order.
    pub fn list_user_subscriptions(&self, user: &Principal) -> (r: Vec<&Subscription>)
        ensures
            ref_views(r@) == subs_of(self.subs.sq(), user@),
    {
        let n = self.subs.len();
        let mut r: Vec<&Subscription> = Vec::new();
        let mut i: usize = 0;
        proof {
            assert(self.subs.sq().take(0) =~= Seq::<SubscriptionView>::empty());
            assert(ref_views(r@) =~= subs_of(self.subs.sq().take(0), user@));
        }
        while i < n
            invariant
                n == self.subs.sq().len(),
                i <= n,
                ref_views(r@) == subs_of(self.subs.sq().take(i as int), user@),
            decreases n - i,
        {
            let s = self.subs.nth(i);
            proof {
                assert(self.subs.sq().take(i + 1).drop_last() =~= self.subs.sq().take(i as int));
                assert(self.subs.sq().take(i + 1).last() == self.subs.sq()[i as int]);
            }
            if s.subscriber.eq_p(user) {
                r.push(s);
            }
            proof {
                assert(ref_views(r@) =~= subs_of(self.subs.sq().take(i + 1), user@));
            }
            i += 1;
        }
        proof {
            assert(self.subs.sq().take(n as int) =~= self.subs.sq());
        }
        r
    }

    /// The subscriptions under one plan, in storage order.
    pub fn list_subscriptions_by_plan(&self, plan_id: &String) -> (r: Vec<&Subscription>)
        ensures
            ref_views(r@) == subs_of_plan(self.subs.sq(), plan_id@),
    {
        let n = self.subs.len();
        let mut r: Vec<&Subscription> = Vec::new();
        let mut i: usize = 0;
        proof {
            assert(self.subs.sq().take(0) =~= Seq::<SubscriptionView>::empty());
            assert(ref_views(r@) =~= subs_of_plan(self.subs.sq().take(0), plan_id@));
        }
        while i < n
            invariant
                n == self.subs.sq().len(),
                i <= n,
                ref_views(r@) == subs_of_plan(self.subs.sq().take(i as int), plan_id@),
            decreases n - i,
        {
            let s = self.subs.nth(i);
            proof {
                assert(self.subs.sq().take(i + 1).drop_last() =~= self.subs.sq().take(i as int));
                assert(self.subs.sq().take(i + 1).last() == self.subs.sq()[i as int]);
            }
            if s.plan_id.eq(plan_id) {
                r.push(s);
            }
            proof {
                assert(ref_views(r@) =~= subs_of_plan(self.subs.sq().take(i + 1), plan_id@));
            }
            i += 1;
        }
        proof {
            assert(self.subs.sq().take(n as int) =~= self.subs.sq());
        }
        r
    }

    /// Every subscription, for the owner; anyone else sees nothing.
    pub fn list_all_subscriptions(&self, caller: &Principal, owner: &Principal) -> (r: Vec<
        &Subscription,
    >)
        ensures
            caller@ == owner@ ==> ref_views(r@) == self.subs.sq(),
            caller@ != owner@ ==> r@.len() == 0,
    {
        if !caller.eq_p(owner) {
            return Vec::new();
        }
        self.subs.all()
    }

    /// Cancels a subscription, at once or at the end of the running
    /// period; only the subscriber or the owner may.
    pub fn cancel_subscription(
        &mut self,
        subscription_id: &String,
        cancel_immediately: bool,
        caller: &Principal,
        owner: &Principal,
        now: u64,
    ) -> (r: Result<(), String>)
        requires
            old(self).wf(),
        ensures
            final(self).wf(),
            r is Ok <==> (old(self).subs.m().contains_key(subscription_id@) && {
                let s = old(self).subs.m()[subscription_id@];
                (caller@ == s.subscriber || caller@ == owner@) && s.status
                    != SubscriptionStatus::Cancelled
            }),
            r is Ok ==> {
                let s = old(self).subs.m()[subscription_id@];
                let v = if cancel_immediately {
                    SubscriptionView {
                        status: SubscriptionStatus::Cancelled,
                        cancelled_at: Option::Some(now),
                        updated_at: now,
                        ..s
                    }
                } else {
                    SubscriptionView { cancel_at_period_end: true, updated_at: now, ..s }
                };
                final(self).subs.m() == old(self).subs.m().insert(subscription_id@, v)
            },
            r is Err ==> final(self).subs.m() == old(self).subs.m(),
            final(self).plans == old(self).plans,
            final(self).payments == old(self).payments,
            final(self).next_subscription_id == old(self).next_subscription_id,
    {
        proof {
            self.subs.lemma_filed_under_own_key(subscription_id@);
        }
        let mut sub = match self.subs.remove(subscription_id) {
            Some(s) => s,
            None => {
                return Err(String::from_str("Subscription not found"));
            },
        };
        if !caller.eq_p(&sub.subscriber) && !caller.eq_p(owner) {
            self.subs.insert(sub);
            proof {
                assert(self.subs.m() =~= old(self).subs.m());
            }
            return Err(
                String::from_str("Only the subscriber or owner can cancel this subscription"),
            );
        }
        let cancelled = match sub.status {
            SubscriptionStatus::Cancelled => true,
            _ => false,
        };
        if cancelled {
            self.subs.insert(sub);
            proof {
                assert(self.subs.m() =~= old(self).subs.m());
            }
            return Err(String::from_str("Subscription is already cancelled"));
        }
        if cancel_immediately {
            sub.status = SubscriptionStatus::Cancelled;
            sub.cancelled_at = Some(now);
        } else {
            sub.cancel_at_period_end = true;
        }
        sub.updated_at = now;
        self.subs.insert(sub);
        Ok(())
    }

    /// Pauses an active subscription; only the subscriber or the owner may.
    pub fn pause_subscription(
        &mut self,
        subscription_id: &String,
        caller: &Principal,
        owner: &Principal,
        now: u64,
    ) -> (r: Result<(), String>)
        requires
            old(self).wf(),
        ensures
            final(self).wf(),
            r is Ok <==> (old(self).subs.m().contains_key(subscription_id@) && {
                let s = old(self).subs.m()[subscription_id@];
                (caller@ == s.subscriber || caller@ == owner@) && s.status
                    == SubscriptionStatus::Active
            }),
            r is Ok ==> {
                let s = old(self).subs.m()[subscription_id@];
                let v = SubscriptionView {
                    status: SubscriptionStatus::Paused,
                    updated_at: now,
                    ..s
                };
                final(self).subs.m() == old(self).subs.m().insert(subscription_id@, v)
            },
            r is Err ==> final(self).subs.m() == old(self).subs.m(),
            final(self).plans == old(self).plans,
            final(self).payments == old(self).payments,
            final(self).next_subscription_id == old(self).next_subscription_id,
    {
        proof {
            self.subs.lemma_filed_under_own_key(subscription_id@);
        }
        let mut sub = match self.subs.remove(subscription_id) {
            Some(s) => s,
            None => {
                return Err(String::from_str("Subscription not found"));
            },
        };
        if !caller.eq_p(&sub.subscriber) && !caller.eq_p(owner) {
            self.subs.insert(sub);
            proof {
                assert(self.subs.m() =~= old(self).subs.m());
            }
            return Err(
                String::from_str("Only the subscriber or owner can pause this subscription"),
            );
        }
        let active = match sub.status {
            SubscriptionStatus::Active => true,
            _ => false,
        };
        if !active {
            self.subs.insert(sub);
            proof {
                assert(self.subs.m() =~= old(self).subs.m());
            }
            return Err(String::from_str("Only active subscriptions can be paused"));
        }
        sub.status = SubscriptionStatus::Paused;
        sub.updated_at = now;
        self.subs.insert(sub);
        Ok(())
    }

    /// Resumes a paused subscription; only the subscriber or the owner may.
    pub fn resume_subscription(
        &mut self,
        subscription_id: &String,
        caller: &Principal,
        owner: &Principal,
        now: u64,
    ) -> (r: Result<(), String>)
        requires
            old(self).wf(),
        ensures
            final(self).wf(),
            r is Ok <==> (old(self).subs.m().contains_key(subscription_id@) && {
                let s = old(self).subs.m()[subscription_id@];
                (caller@ == s.subscriber || caller@ == owner@) && s.status
                    == SubscriptionStatus::Paused
            }),
            r is Ok ==> {
                let s = old(self).subs.m()[subscription_id@];
                let v = SubscriptionView {
                    status: SubscriptionStatus::Active,
                    updated_at: now,
                    ..s
                };
                final(self).subs.m() == old(self).subs.m().insert(subscription_id@, v)
            },
            r is Err ==> final(self).subs.m() == old(self).subs.m(),
            final(self).plans == old(self).plans,
            final(self).payments == old(self).payments,
            final(self).next_subscription_id == old(self).next_subscription_id,
    {
        proof {
            self.subs.lemma_filed_under_own_key(subscription_id@);
        }
        let mut sub = match self.subs.remove(subscription_id) {
            Some(s) => s,
            None => {
                return Err(String::from_str("Subscription not found"));
            },
        };
        if !caller.eq_p(&sub.subscriber) && !caller.eq_p(owner) {
            self.subs.insert(sub);
            proof {
                assert(self.subs.m() =~= old(self).subs.m());
            }
            return Err(
                String::from_str("Only the subscriber or owner can resume this subscription"),
            );
        }
        let paused = match sub.status {
            SubscriptionStatus::Paused => true,
            _ => false,
        };
        if !paused {
            self.subs.insert(sub);
            proof {
                assert(self.subs.m() =~= old(self).subs.m());
            }
            return Err(String::from_str("Only paused subscriptions can be resumed"));
        }
        sub.status = SubscriptionStatus::Active;
        sub.updated_at = now;
        self.subs.insert(sub);
        Ok(())
    }

    /// Replaces a subscription's metadata; only the subscriber or the
    /// owner may.
    pub fn update_subscription_metadata(
        &mut self,
        subscription_id: &String,
        metadata: Vec<(String, String)>,
        caller: &Principal,
        owner: &Principal,
        now: u64,
    ) -> (r: Result<(), String>)
        requires
            old(self).wf(),
        ensures
            final(self).wf(),
            r is Ok <==> (old(self).subs.m().contains_key(subscription_id@) && {
                let s = old(self).subs.m()[subscription_id@];
                caller@ == s.subscriber || caller@ == owner@
            }),
            r is Ok ==> {
                let s = old(self).subs.m()[subscription_id@];
                let v = SubscriptionView { metadata: pairs_view(metadata@), updated_at: now, ..s };
                final(self).subs.m() == old(self).subs.m().insert(subscription_id@, v)
            },
            r is Err ==> final(self).subs.m() == old(self).subs.m(),
            final(self).plans == old(self).plans,
            final(self).payments == old(self).payments,
            final(self).next_subscription_id == old(self).next_subscription_id,
    {
        proof {
            self.subs.lemma_filed_under_own_key(subscription_id@);
        }
        let mut sub = match self.subs.remove(subscription_id) {
            Some(s) => s,
            None => {
                return Err(String::from_str("Subscription not found"));
            },
        };
        if !caller.eq_p(&sub.subscriber) && !caller.eq_p(owner) {
            self.subs.insert(sub);
            proof {
                assert(self.subs.m() =~= old(self).subs.m());
            }
            return Err(
                String::from_str("Only the subscriber or owner can update this subscription"),
            );
        }
        sub.metadata = metadata;
        sub.updated_at = now;
        self.subs.insert(sub);
        Ok(())
    }

    /// Bills a due subscription: a payment record is written, the period
    /// rolls forward one interval, and a subscription marked to cancel at
    /// period end is finalized instead of renewed.
    pub fn process_subscription_payment(&mut self, subscription_id: &String, now: u64) -> (r:
        Result<String, String>)
        requires
            old(self).wf(),
            (old(self).subs.m().contains_key(subscription_id@) && old(self).plans.m().contains_key(
                old(self).subs.m()[subscription_id@].plan_id,
            )) ==> old(self).subs.m()[subscription_id@].current_period_end + interval_nanos(
                old(self).plans.m()[old(self).subs.m()[subscription_id@].plan_id].billing_interval,
            ) <= u64::MAX,
        ensures
            final(self).wf(),
            r is Ok <==> (old(self).subs.m().contains_key(subscription_id@) && old(
                self,
            ).plans.m().contains_key(old(self).subs.m()[subscription_id@].plan_id) && now >= old(
                self,
            ).subs.m()[subscription_id@].next_billing_date),
            r matches Ok(pid) ==> {
                let s = old(self).subs.m()[subscription_id@];
                let p = old(self).plans.m()[s.plan_id];
                let new_end = (s.current_period_end + interval_nanos(p.billing_interval)) as u64;
                let pay = SubscriptionPaymentView {
                    payment_id: payment_id_of(subscription_id@, now),
                    subscription_id: subscription_id@,
                    amount: p.price,
                    token: p.token,
                    billing_period_start: s.current_period_start,
                    billing_period_end: s.current_period_end,
                    payment_date: now,
                    status: "paid"@,
                    transaction_id: Option::None,
                    failure_reason: Option::None,
                };
                let renewed = SubscriptionView {
                    status: (if s.cancel_at_period_end {
                        SubscriptionStatus::Cancelled
                    } else {
                        SubscriptionStatus::Active
                    }),
                    cancelled_at: (if s.cancel_at_period_end {
                        Option::Some(now)
                    } else {
                        s.cancelled_at
                    }),
                    current_period_start: s.current_period_end,
                    current_period_end: new_end,
                    next_billing_date: new_end,
                    total_payments: (if s.total_payments + p.price > u64::MAX {
                        u64::MAX as int
                    } else {
                        s.total_payments + p.price
                    }) as u64,
                    payment_failures: 0,
                    updated_at: now,
                    ..s
                };
                &&& pid@ == pay.payment_id
                &&& final(self).subs.m() == old(self).subs.m().insert(subscription_id@, renewed)
                &&& final(self).payments.m() == old(self).payments.m().insert(pay.payment_id, pay)
            },
            r is Err ==> final(self).subs.m() == old(self).subs.m() && final(self).payments.m()
                == old(self).payments.m(),
            final(self).plans == old(self).plans,
            final(self).next_subscription_id == old(self).next_subscription_id,
    {
        proof {
            self.subs.lemma_filed_under_own_key(subscription_id@);
        }
        let mut sub = match self.subs.remove(subscription_id) {
            Some(s) => s,
            None => {
                return Err(String::from_str("Subscription not found"));
            },
        };
        let (plan_price, plan_token, plan_interval) = match self.plans.get(&sub.plan_id) {
            Some(p) => (p.price, p.token.clone(), p.billing_interval),
            None => {
                self.subs.insert(sub);
                proof {
                    assert(self.subs.m() =~= old(self).subs.m());
                }
                return Err(String::from_str("Subscription plan not found"));
            },
        };
        if now < sub.next_billing_date {
            self.subs.insert(sub);
            proof {
                assert(self.subs.m() =~= old(self).subs.m());
            }
            return Err(String::from_str("Payment is not yet due"));
        }
        let payment_id = String::from_str("pay_").concat(subscription_id.as_str()).concat(
            "_",
        ).concat(u64_to_string(now).as_str());
        let payment = SubscriptionPayment {
            payment_id: payment_id.clone(),
            subscription_id: subscription_id.clone(),
            amount: plan_price,
            token: plan_token,
            billing_period_start: sub.current_period_start,
            billing_period_end: sub.current_period_end,
            payment_date: now,
            status: String::from_str("paid"),
            transaction_id: None,
            failure_reason: None,
        };
        let new_end = calculate_next_billing_date(sub.current_period_end, &plan_interval);
        sub.status = SubscriptionStatus::Active;
        sub.current_period_start = sub.current_period_end;
        sub.current_period_end = new_end;
        sub.next_billing_date = new_end;
        sub.total_payments = if plan_price > u64::MAX - sub.total_payments {
            u64::MAX
        } else {
            sub.total_payments + plan_price
        };
        sub.payment_failures = 0;
        sub.updated_at = now;
        if sub.cancel_at_period_end {
            sub.status = SubscriptionStatus::Cancelled;
            sub.cancelled_at = Some(now);
        }
        self.subs.insert(sub);
        self.payments.insert(payment);
        Ok(payment_id)
    }

    pub fn get_subscription_payment(&self, payment_id: &String) -> (r: Option<
        &SubscriptionPayment,
    >)
        requires
            self.wf(),
        ensures
            match r {
                Some(p) => self.payments.m().contains_key(payment_id@) && p@ == self.payments.m()[
                    payment_id@
                ],
                None => !self.payments.m().contains_key(payment_id@),
            },
    {
        self.payments.get(payment_id)
    }

    /// The recorded payments of one subscription, in storage order.
    pub fn list_subscription_payments(&self, subscription_id: &String) -> (r: Vec<
        &SubscriptionPayment,
    >)
        ensures
            ref_views(r@) == payments_of(self.payments.sq(), subscription_id@),
    {
        let n = self.payments.len();
        let mut r: Vec<&SubscriptionPayment> = Vec::new();
        let mut i: usize = 0;
        proof {
            assert(self.payments.sq().take(0) =~= Seq::<SubscriptionPaymentView>::empty());
            assert(ref_views(r@) =~= payments_of(self.payments.sq().take(0), subscription_id@));
        }
        while i < n
            invariant
                n == self.payments.sq().len(),
                i <= n,
                ref_views(r@) == payments_of(self.payments.sq().take(i as int), subscription_id@),
            decreases n - i,
        {
            let p = self.payments.nth(i);
            proof {
                assert(self.payments.sq().take(i + 1).drop_last() =~= self.payments.sq().take(
                    i as int,
                ));
                assert(self.payments.sq().take(i + 1).last() == self.payments.sq()[i as int]);
            }
            if p.subscription_id.eq(subscription_id) {
                r.push(p);
            }
            proof {
                assert(ref_views(r@) =~= payments_of(
                    self.payments.sq().take(i + 1),
                    subscription_id@,
                ));
            }
            i += 1;
        }
        proof {
            assert(self.payments.sq().take(n as int) =~= self.payments.sq());
        }
        r
    }

    /// Clears the plan catalog, the subscriptions and their payments,
    /// handing back how many plans and subscriptions were struck.
    pub fn admin_clear_all_subscriptions(&mut self, caller: &Principal, owner: &Principal) -> (r:
        Result<u32, String>)
        requires
            old(self).wf(),
        ensures
            final(self).wf(),
            r is Ok <==> caller@ == owner@,
            r matches Ok(c) ==> c == (old(self).plans.sq().len() + old(self).subs.sq().len()) as u32
                && final(self).plans.sq() == Seq::<SubscriptionPlanView>::empty()
                && final(self).subs.sq() == Seq::<SubscriptionView>::empty()
                && final(self).payments.sq() == Seq::<SubscriptionPaymentView>::empty(),
            r is Err ==> final(self).plans.m() == old(self).plans.m() && final(self).subs.m()
                == old(self).subs.m() && final(self).payments.m() == old(self).payments.m(),
            final(self).next_subscription_id == old(self).next_subscription_id,
    {
        if !caller.eq_p(owner) {
            return Err(String::from_str("Only the owner can clear all subscriptions"));
        }
        let plan_count = self.plans.len();
        let sub_count = self.subs.len();
        self.plans.clear();
        self.subs.clear();
        self.payments.clear();
        let total: u128 = plan_count as u128 + sub_count as u128;
        Ok(#[verifier::truncate] (total as u32))
    }

    /// Plan, subscription and active-subscription counts, for the owner;
    /// anyone else sees zeros.
    pub fn get_subscription_stats(&self, caller: &Principal, owner: &Principal) -> (r: (
        u32,
        u32,
        u32,
    ))
        ensures
            caller@ == owner@ ==> r.0 == self.plans.sq().len() as u32 && r.1 == self.subs.sq().len()
                as u32 && r.2 == active_sub_count(self.subs.sq()) as u32,
            caller@ != owner@ ==> r == (0u32, 0u32, 0u32),
    {
        if !caller.eq_p(owner) {
            return (0, 0, 0);
        }
        let plan_count = self.plans.len();
        let sub_count = self.subs.len();
        let n = self.subs.len();
        let mut active: u64 = 0;
        let mut i: usize = 0;
        proof {
            assert(self.subs.sq().take(0) =~= Seq::<SubscriptionView>::empty());
        }
        while i < n
            invariant
                n == self.subs.sq().len(),
                i <= n,
                active <= i,
                active == active_sub_count(self.subs.sq().take(i as int)),
            decreases n - i,
        {
            let s = self.subs.nth(i);
            proof {
                assert(self.subs.sq().take(i + 1).drop_last() =~= self.subs.sq().take(i as int));
                assert(self.subs.sq().take(i + 1).last() == self.subs.sq()[i as int]);
            }
            let is_active = match s.status {
                SubscriptionStatus::Active => true,
                _ => false,
            };
            if is_active {
                active = active + 1;
            }
            i += 1;
        }
        proof {
            assert(self.subs.sq().take(n as int) =~= self.subs.sq());
        }
        (
            #[verifier::truncate] (plan_count as u32),
            #[verifier::truncate] (sub_count as u32),
            #[verifier::truncate] (active as u32),
        )
    }
}

/// The identifier of a billing record: the subscription and the moment
/// of payment.
pub open spec fn payment_id_of(subscription_id: Seq<char>, now: u64) -> Seq<char> {
    "pay_"@ + subscription_id + "_"@ + dec_digits(now as int)
}

} // verus!
