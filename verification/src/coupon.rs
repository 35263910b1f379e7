use vstd::prelude::*;
use vstd::string::StringExecFns;

use crate::principal::Principal;
use crate::table::{key_set, Table, TableItem};
use crate::util::{
    dec_digits, make_id, ref_views, strings_contain, strings_view, to_upper, u64_to_string,
    upper_of,
};

verus! {

/// How a coupon reduces an amount.
#[derive(Clone, Copy, PartialEq, Eq, Structural, Debug)]
pub enum CouponType {
    Percentage(u32),
    FixedAmount(u64),
    FreeShipping,
}

/// A discount coupon: a case-insensitive human code, a discount rule,
/// and the conditions under which it may be used.
#[derive(Debug)]
pub struct DiscountCoupon {
    pub coupon_id: String,
    pub code: String,
    pub coupon_type: CouponType,
    pub description: String,
    pub minimum_amount: Option<u64>,
    pub applicable_tokens: Vec<String>,
    pub usage_limit: Option<u32>,
    pub used_count: u32,
    pub expires_at: Option<u64>,
    pub is_active: bool,
    pub created_at: u64,
    pub updated_at: u64,
}

pub struct DiscountCouponView {
    pub coupon_id: Seq<char>,
    pub code: Seq<char>,
    pub coupon_type: CouponType,
    pub description: Seq<char>,
    pub minimum_amount: Option<u64>,
    pub applicable_tokens: Seq<Seq<char>>,
    pub usage_limit: Option<u32>,
    pub used_count: u32,
    pub expires_at: Option<u64>,
    pub is_active: bool,
    pub created_at: u64,
    pub updated_at: u64,
}

impl View for DiscountCoupon {
    type V = DiscountCouponView;

    open spec fn view(&self) -> DiscountCouponView {
        DiscountCouponView {
            coupon_id: self.coupon_id@,
            code: self.code@,
            coupon_type: self.coupon_type,
            description: self.description@,
            minimum_amount: self.minimum_amount,
            applicable_tokens: strings_view(self.applicable_tokens@),
            usage_limit: self.usage_limit,
            used_count: self.used_count,
            expires_at: self.expires_at,
            is_active: self.is_active,
            created_at: self.created_at,
            updated_at: self.updated_at,
        }
    }
}

impl TableItem for DiscountCoupon {
    open spec fn view_key(v: DiscountCouponView) -> Seq<char> {
        v.coupon_id
    }

    fn key(&self) -> (k: &String) {
        &self.coupon_id
    }
}

/// One recorded use of a coupon.
#[derive(Debug)]
pub struct CouponUsage {
    pub usage_id: String,
    pub coupon_id: String,
    pub user_principal: Principal,
    pub invoice_id: String,
    pub discount_applied: u64,
    pub used_at: u64,
}

pub struct CouponUsageView {
    pub usage_id: Seq<char>,
    pub coupon_id: Seq<char>,
    pub user_principal: Seq<char>,
    pub invoice_id: Seq<char>,
    pub discount_applied: u64,
    pub used_at: u64,
}

impl View for CouponUsage {
    type V = CouponUsageView;

    open spec fn view(&self) -> CouponUsageView {
        CouponUsageView {
            usage_id: self.usage_id@,
            coupon_id: self.coupon_id@,
            user_principal: self.user_principal@,
            invoice_id: self.invoice_id@,
            discount_applied: self.discount_applied,
            used_at: self.used_at,
        }
    }
}

impl TableItem for CouponUsage {
    open spec fn view_key(v: CouponUsageView) -> Seq<char> {
        v.usage_id
    }

    fn key(&self) -> (k: &String) {
        &self.usage_id
    }
}

/// What a coupon takes off an amount: a percentage rounded down, a
/// fixed cut capped at the amount itself, or nothing for free shipping.
pub open spec fn spec_discount(t: CouponType, amount: u64) -> int {
    match t {
        CouponType::Percentage(p) => amount * p / 100,
        CouponType::FixedAmount(f) => if f > amount {
            amount as int
        } else {
            f as int
        },
        CouponType::FreeShipping => 0,
    }
}

/// A percentage discount of at most 100 never exceeds the amount, and a
/// fixed discount is capped at the amount: no discount overshoots.
pub proof fn lemma_discount_never_exceeds_amount(t: CouponType, amount: u64)
    requires
        t matches CouponType::Percentage(p) ==> p <= 100,
    ensures
        0 <= spec_discount(t, amount) <= amount,
{
    match t {
        CouponType::Percentage(p) => {
            assert((amount as int) * (p as int) <= (amount as int) * 100) by (nonlinear_arith)
                requires
                    p <= 100,
            ;
            assert((amount as int) * 100 / 100 == amount as int) by (nonlinear_arith);
            assert((amount as int) * (p as int) / 100 <= (amount as int) * 100 / 100) by (nonlinear_arith)
                requires
                    (amount as int) * (p as int) <= (amount as int) * 100,
            ;
            assert((amount as int) * (p as int) >= 0) by (nonlinear_arith);
        },
        _ => {},
    }
}

/// Computes [`spec_discount`] exactly.
pub fn compute_discount(t: CouponType, amount: u64) -> (r: u64)
    requires
        t matches CouponType::Percentage(p) ==> p <= 100,
    ensures
        r == spec_discount(t, amount),
        r <= amount,
{
    proof {
        lemma_discount_never_exceeds_amount(t, amount);
    }
    match t {
        CouponType::Percentage(p) => (((amount as u128) * (p as u128)) / 100) as u64,
        CouponType::FixedAmount(f) => if f > amount {
            amount
        } else {
            f
        },
        CouponType::FreeShipping => 0,
    }
}

/// A coupon's discount rule passes creation: a percentage of at most
/// 100, a positive fixed amount, or free shipping.
pub open spec fn coupon_type_ok(t: CouponType) -> bool {
    match t {
        CouponType::Percentage(p) => p <= 100,
        CouponType::FixedAmount(f) => f > 0,
        CouponType::FreeShipping => true,
    }
}

/// Whether a stored coupon may be used right now on this amount and token.
pub open spec fn coupon_ok(c: DiscountCouponView, amount: u64, token: Seq<char>, now: u64) -> bool {
    &&& c.is_active
    &&& (match c.expires_at {
        Option::Some(e) => now <= e,
        Option::None => true,
    })
    &&& (match c.usage_limit {
        Option::Some(l) => c.used_count < l,
        Option::None => true,
    })
    &&& (match c.minimum_amount {
        Option::Some(m) => amount >= m,
        Option::None => true,
    })
    &&& (c.applicable_tokens.len() == 0 || strings_contain(c.applicable_tokens, token))
}

/// The first stored coupon carrying exactly this code, if any.
pub open spec fn find_coupon_idx(s: Seq<DiscountCouponView>, code: Seq<char>) -> Option<int>
    decreases s.len(),
{
    if s.len() == 0 {
        Option::<int>::None
    } else if s[0].code == code {
        Option::Some(0int)
    } else {
        match find_coupon_idx(s.drop_first(), code) {
            Option::Some(i) => Option::Some(i + 1),
            Option::None => Option::<int>::None,
        }
    }
}

proof fn lemma_find_coupon_at(s: Seq<DiscountCouponView>, code: Seq<char>, i: int)
    requires
        0 <= i < s.len(),
        forall|j: int| 0 <= j < i ==> (#[trigger] s[j]).code != code,
        s[i].code == code,
    ensures
        find_coupon_idx(s, code) == Some(i),
    decreases i,
{
    if i > 0 {
        lemma_find_coupon_at(s.drop_first(), code, i - 1);
    }
}

proof fn lemma_find_coupon_none(s: Seq<DiscountCouponView>, code: Seq<char>)
    requires
        forall|j: int| 0 <= j < s.len() ==> (#[trigger] s[j]).code != code,
    ensures
        find_coupon_idx(s, code) is None,
    decreases s.len(),
{
    if s.len() > 0 {
        lemma_find_coupon_none(s.drop_first(), code);
    }
}

/// A coupon's used count after one more use: one step up, stopping at
/// the machine limit.
pub open spec fn bump_count(c: u32) -> u32 {
    if c == u32::MAX {
        u32::MAX
    } else {
        (c + 1) as u32
    }
}

/// The identifier of a usage record: the coupon and the moment of use.
pub open spec fn usage_id_of(coupon_id: Seq<char>, now: u64) -> Seq<char> {
    "usage_"@ + coupon_id + "_"@ + dec_digits(now as int)
}

/// The records of `s` that belong to one coupon, in order.
pub open spec fn usages_of(s: Seq<CouponUsageView>, coupon_id: Seq<char>) -> Seq<CouponUsageView>
    decreases s.len(),
{
    if s.len() == 0 {
        Seq::<CouponUsageView>::empty()
    } else {
        let rest = usages_of(s.drop_last(), coupon_id);
        if s.last().coupon_id == coupon_id {
            rest.push(s.last())
        } else {
            rest
        }
    }
}

/// The coupons of `s` that are active, unexpired and under their usage
/// limit, in order.
pub open spec fn live_coupons(s: Seq<DiscountCouponView>, now: u64) -> Seq<DiscountCouponView>
    decreases s.len(),
{
    if s.len() == 0 {
        Seq::<DiscountCouponView>::empty()
    } else {
        let rest = live_coupons(s.drop_last(), now);
        let c = s.last();
        if c.is_active && (match c.expires_at {
            Option::Some(e) => e > now,
            Option::None => true,
        }) && (match c.usage_limit {
            Option::Some(l) => c.used_count < l,
            Option::None => true,
        }) {
            rest.push(c)
        } else {
            rest
        }
    }
}

/// The per-tenant coupon tables: the coupons themselves, their usage
/// history, and the id counter.
pub struct CouponEngine {
    pub coupons: Table<DiscountCoupon>,
    pub usage: Table<CouponUsage>,
    pub next_coupon_id: u64,
}

impl CouponEngine {
    pub open spec fn wf(&self) -> bool {
        &&& self.coupons.wf()
        &&& self.usage.wf()
        &&& (forall|k: Seq<char>|
            #[trigger] self.coupons.m().contains_key(k) ==> coupon_type_ok(
                self.coupons.m()[k].coupon_type,
            ))
    }

    pub fn new() -> (s: Self)
        ensures
            s.wf(),
            s.coupons.sq() == Seq::<DiscountCouponView>::empty(),
            s.usage.sq() == Seq::<CouponUsageView>::empty(),
            s.next_coupon_id == 1,
    {
        CouponEngine { coupons: Table::new(), usage: Table::new(), next_coupon_id: 1 }
    }

    /// Files a new coupon: the code must be fresh (case-insensitively),
    /// the rule sound, and only the owner may create one.
    pub fn create_coupon(
        &mut self,
        coupon: DiscountCoupon,
        caller: &Principal,
        owner: &Principal,
        now: u64,
    ) -> (r: Result<String, String>)
        requires
            old(self).wf(),
            old(self).next_coupon_id < u64::MAX,
        ensures
            final(self).wf(),
            r is Ok <==> (caller@ == owner@ && coupon@.code.len() > 0 && coupon@.description.len()
                > 0 && coupon_type_ok(coupon@.coupon_type) && !(exists|i: int|
                0 <= i < old(self).coupons.sq().len() && upper_of(
                    (#[trigger] old(self).coupons.sq()[i]).code,
                ) == upper_of(coupon@.code))),
            r matches Ok(id) ==> {
                let v = DiscountCouponView {
                    coupon_id: crate::util::serial_id("coupon_"@, old(self).next_coupon_id as int),
                    code: upper_of(coupon@.code),
                    used_count: 0,
                    created_at: now,
                    updated_at: now,
                    ..coupon@
                };
                &&& id@ == v.coupon_id
                &&& final(self).coupons.m() == old(self).coupons.m().insert(v.coupon_id, v)
                &&& final(self).next_coupon_id == old(self).next_coupon_id + 1
            },
            r is Err ==> final(self).coupons.m() == old(self).coupons.m()
                && final(self).next_coupon_id == old(self).next_coupon_id,
            final(self).usage == old(self).usage,
    {
        if !caller.eq_p(owner) {
            return Err(String::from_str("Only the owner can create coupons"));
        }
        if coupon.code.as_str().unicode_len() == 0 {
            return Err(String::from_str("Coupon code cannot be empty"));
        }
        if coupon.description.as_str().unicode_len() == 0 {
            return Err(String::from_str("Coupon description cannot be empty"));
        }
        match &coupon.coupon_type {
            CouponType::Percentage(percent) => {
                if *percent > 100 {
                    return Err(String::from_str("Percentage discount cannot exceed 100%"));
                }
            },
            CouponType::FixedAmount(amount) => {
                if *amount == 0 {
                    return Err(
                        String::from_str("Fixed discount amount must be greater than 0"),
                    );
                }
            },
            CouponType::FreeShipping => {},
        }
        let cand = to_upper(&coupon.code);
        let n = self.coupons.len();
        let mut i: usize = 0;
        while i < n
            invariant
                self == old(self),
                self.wf(),
                n == self.coupons.sq().len(),
                i <= n,
                cand@ == upper_of(coupon@.code),
                forall|j: int|
                    0 <= j < i ==> upper_of((#[trigger] self.coupons.sq()[j]).code) != upper_of(
                        coupon@.code,
                    ),
            decreases n - i,
        {
            let existing = to_upper(&self.coupons.nth(i).code);
            if existing.eq(&cand) {
                proof {
                    assert(upper_of((old(self).coupons.sq()[i as int]).code) == upper_of(
                        coupon@.code,
                    ));
                }
                return Err(String::from_str("A coupon with this code already exists"));
            }
            i += 1;
        }
        let id = make_id("coupon_", self.next_coupon_id);
        self.next_coupon_id = self.next_coupon_id + 1;
        let stored = DiscountCoupon {
            coupon_id: id.clone(),
            code: cand,
            coupon_type: coupon.coupon_type,
            description: coupon.description,
            minimum_amount: coupon.minimum_amount,
            applicable_tokens: coupon.applicable_tokens,
            usage_limit: coupon.usage_limit,
            used_count: 0,
            expires_at: coupon.expires_at,
            is_active: coupon.is_active,
            created_at: now,
            updated_at: now,
        };
        self.coupons.insert(stored);
        Ok(id)
    }

    /// Looks a coupon up by its id.
    pub fn get_coupon(&self, coupon_id: &String) -> (r: Option<&DiscountCoupon>)
        requires
            self.wf(),
        ensures
            match r {
                Some(c) => self.coupons.m().contains_key(coupon_id@) && c@ == self.coupons.m()[
                    coupon_id@
                ],
                None => !self.coupons.m().contains_key(coupon_id@),
            },
    {
        self.coupons.get(coupon_id)
    }

    /// Looks a coupon up by its code, folding case first.
    pub fn get_coupon_by_code(&self, code: &String) -> (r: Option<&DiscountCoupon>)
        ensures
            match r {
                Some(c) => find_coupon_idx(self.coupons.sq(), upper_of(code@)) matches Some(i)
                    && c@ == self.coupons.sq()[i],
                None => find_coupon_idx(self.coupons.sq(), upper_of(code@)) is None,
            },
    {
        let cand = to_upper(code);
        let n = self.coupons.len();
        let mut i: usize = 0;
        while i < n
            invariant
                n == self.coupons.sq().len(),
                i <= n,
                cand@ == upper_of(code@),
                forall|j: int| 0 <= j < i ==> (#[trigger] self.coupons.sq()[j]).code != cand@,
            decreases n - i,
        {
            let c = self.coupons.nth(i);
            if c.code.eq(&cand) {
                proof {
                    lemma_find_coupon_at(self.coupons.sq(), cand@, i as int);
                }
                return Some(c);
            }
            i += 1;
        }
        proof {
            lemma_find_coupon_none(self.coupons.sq(), cand@);
        }
        None
    }

    /// Validates a coupon against an amount and token, and on success
    /// consumes one use at once: the use is not rolled back if the
    /// surrounding payment later fails.
    pub fn validate_and_use_coupon(
        &mut self,
        coupon_code: &String,
        invoice_amount: u64,
        token_symbol: &String,
        caller: &Principal,
        now: u64,
    ) -> (r: Result<(String, u64), String>)
        requires
            old(self).wf(),
        ensures
            final(self).wf(),
            r is Ok <==> (find_coupon_idx(old(self).coupons.sq(), upper_of(coupon_code@)) matches
                Some(i) && coupon_ok(old(self).coupons.sq()[i], invoice_amount, token_symbol@, now)),
            r matches Ok(p) ==> {
                let i = find_coupon_idx(old(self).coupons.sq(), upper_of(coupon_code@))->Some_0;
                let c = old(self).coupons.sq()[i];
                let used = DiscountCouponView {
                    used_count: bump_count(c.used_count),
                    updated_at: now,
                    ..c
                };
                let u = CouponUsageView {
                    usage_id: usage_id_of(c.coupon_id, now),
                    coupon_id: c.coupon_id,
                    user_principal: caller@,
                    invoice_id: "pending_"@ + dec_digits(now as int),
                    discount_applied: spec_discount(c.coupon_type, invoice_amount) as u64,
                    used_at: now,
                };
                &&& p.0@ == c.coupon_id
                &&& p.1 == spec_discount(c.coupon_type, invoice_amount)
                &&& p.1 <= invoice_amount
                &&& final(self).coupons.m() == old(self).coupons.m().insert(c.coupon_id, used)
                &&& final(self).coupons.m() == coupons_after_use(old(self).coupons.m(), c, now)
                &&& final(self).usage.m() == old(self).usage.m().insert(u.usage_id, u)
                &&& final(self).usage.m() == usage_after_use(
                    old(self).usage.m(),
                    c,
                    invoice_amount,
                    caller@,
                    now,
                )
            },
            r is Err ==> final(self).coupons.m() == old(self).coupons.m() && final(self).usage.m()
                == old(self).usage.m(),
            final(self).next_coupon_id == old(self).next_coupon_id,
    {
        let cand = to_upper(coupon_code);
        let n = self.coupons.len();
        let mut i: usize = 0;
        while i < n
            invariant
                self == old(self),
                self.wf(),
                n == self.coupons.sq().len(),
                i <= n,
                cand@ == upper_of(coupon_code@),
                forall|j: int| 0 <= j < i ==> (#[trigger] self.coupons.sq()[j]).code != cand@,
            decreases n - i,
        {
            let c = self.coupons.nth(i);
            if c.code.eq(&cand) {
                proof {
                    lemma_find_coupon_at(self.coupons.sq(), cand@, i as int);
                    self.coupons.lemma_nth_present(i as int);
                }
                if !c.is_active {
                    return Err(String::from_str("Coupon is not active"));
                }
                if let Some(expires_at) = c.expires_at {
                    if now > expires_at {
                        return Err(String::from_str("Coupon has expired"));
                    }
                }
                if let Some(usage_limit) = c.usage_limit {
                    if c.used_count >= usage_limit {
                        return Err(String::from_str("Coupon usage limit reached"));
                    }
                }
                if let Some(minimum_amount) = c.minimum_amount {
                    if invoice_amount < minimum_amount {
                        return Err(String::from_str("Minimum purchase amount required"));
                    }
                }
                if self.coupons.nth(i).applicable_tokens.len() > 0 && !crate::util::contains_string(
                    &self.coupons.nth(i).applicable_tokens,
                    token_symbol,
                ) {
                    return Err(String::from_str("Coupon is not applicable to this token"));
                }
                let cid = self.coupons.nth(i).coupon_id.clone();
                let discount = compute_discount(self.coupons.nth(i).coupon_type, invoice_amount);
                let mut used = match self.coupons.remove(&cid) {
                    Some(c) => c,
                    None => {
                        proof {
                            assert(false);
                        }
                        return Err(String::from_str("Coupon not found"));
                    },
                };
                if used.used_count < u32::MAX {
                    used.used_count = used.used_count + 1;
                }
                used.updated_at = now;
                self.coupons.insert(used);
                let usage_id = String::from_str("usage_").concat(cid.as_str()).concat(
                    "_",
                ).concat(u64_to_string(now).as_str());
                let usage = CouponUsage {
                    usage_id,
                    coupon_id: cid.clone(),
                    user_principal: caller.clone(),
                    invoice_id: make_id("pending_", now),
                    discount_applied: discount,
                    used_at: now,
                };
                self.usage.insert(usage);
                return Ok((cid, discount));
            }
            i += 1;
        }
        proof {
            lemma_find_coupon_none(self.coupons.sq(), cand@);
        }
        Err(String::from_str("Coupon not found"))
    }
    /// Rewrites a coupon, keeping its identity, its usage count and its
    /// creation time; the new code must not collide with another coupon.
    pub fn update_coupon(
        &mut self,
        coupon_id: &String,
        updated: DiscountCoupon,
        caller: &Principal,
        owner: &Principal,
        now: u64,
    ) -> (r: Result<(), String>)
        requires
            old(self).wf(),
        ensures
            final(self).wf(),
            r is Ok <==> (caller@ == owner@ && updated@.code.len() > 0 && updated@.description.len()
                > 0 && coupon_type_ok(updated@.coupon_type) && old(self).coupons.m().contains_key(
                coupon_id@,
            ) && !(exists|i: int|
                0 <= i < old(self).coupons.sq().len() && (#[trigger] old(
                    self,
                ).coupons.sq()[i]).coupon_id != coupon_id@ && upper_of(
                    old(self).coupons.sq()[i].code,
                ) == upper_of(updated@.code))),
            r is Ok ==> {
                let prev = old(self).coupons.m()[coupon_id@];
                let v = DiscountCouponView {
                    coupon_id: coupon_id@,
                    code: upper_of(updated@.code),
                    used_count: prev.used_count,
                    created_at: prev.created_at,
                    updated_at: now,
                    ..updated@
                };
                final(self).coupons.m() == old(self).coupons.m().insert(coupon_id@, v)
            },
            r is Err ==> final(self).coupons.m() == old(self).coupons.m(),
            final(self).usage == old(self).usage,
            final(self).next_coupon_id == old(self).next_coupon_id,
    {
        if !caller.eq_p(owner) {
            return Err(String::from_str("Only the owner can update coupons"));
        }
        if updated.code.as_str().unicode_len() == 0 {
            return Err(String::from_str("Coupon code cannot be empty"));
        }
        if updated.description.as_str().unicode_len() == 0 {
            return Err(String::from_str("Coupon description cannot be empty"));
        }
        match &updated.coupon_type {
            CouponType::Percentage(percent) => {
                if *percent > 100 {
                    return Err(String::from_str("Percentage discount cannot exceed 100%"));
                }
            },
            CouponType::FixedAmount(amount) => {
                if *amount == 0 {
                    return Err(
                        String::from_str("Fixed discount amount must be greater than 0"),
                    );
                }
            },
            CouponType::FreeShipping => {},
        }
        let (kept_count, kept_created) = match self.coupons.get(coupon_id) {
            Some(c) => (c.used_count, c.created_at),
            None => {
                return Err(String::from_str("Coupon not found"));
            },
        };
        let cand = to_upper(&updated.code);
        let n = self.coupons.len();
        let mut i: usize = 0;
        while i < n
            invariant
                self == old(self),
                self.wf(),
                n == self.coupons.sq().len(),
                i <= n,
                cand@ == upper_of(updated@.code),
                forall|j: int|
                    0 <= j < i ==> ((#[trigger] self.coupons.sq()[j]).coupon_id == coupon_id@
                        || upper_of(self.coupons.sq()[j].code) != upper_of(updated@.code)),
            decreases n - i,
        {
            let c = self.coupons.nth(i);
            if !c.coupon_id.eq(coupon_id) {
                let existing = to_upper(&c.code);
                if existing.eq(&cand) {
                    proof {
                        assert((old(self).coupons.sq()[i as int]).coupon_id != coupon_id@
                            && upper_of(old(self).coupons.sq()[i as int].code) == upper_of(
                            updated@.code,
                        ));
                    }
                    return Err(String::from_str("A coupon with this code already exists"));
                }
            }
            i += 1;
        }
        let stored = DiscountCoupon {
            coupon_id: coupon_id.clone(),
            code: cand,
            coupon_type: updated.coupon_type,
            description: updated.description,
            minimum_amount: updated.minimum_amount,
            applicable_tokens: updated.applicable_tokens,
            usage_limit: updated.usage_limit,
            used_count: kept_count,
            expires_at: updated.expires_at,
            is_active: updated.is_active,
            created_at: kept_created,
            updated_at: now,
        };
        self.coupons.insert(stored);
        Ok(())
    }

    /// Flips a coupon between active and inactive, handing back the new
    /// state.
    pub fn toggle_coupon_status(
        &mut self,
        coupon_id: &String,
        caller: &Principal,
        owner: &Principal,
        now: u64,
    ) -> (r: Result<bool, String>)
        requires
            old(self).wf(),
        ensures
            final(self).wf(),
            r is Ok <==> (caller@ == owner@ && old(self).coupons.m().contains_key(coupon_id@)),
            r matches Ok(b) ==> {
                let prev = old(self).coupons.m()[coupon_id@];
                let v = DiscountCouponView { is_active: !prev.is_active, updated_at: now, ..prev };
                &&& b == !prev.is_active
                &&& final(self).coupons.m() == old(self).coupons.m().insert(coupon_id@, v)
            },
            r is Err ==> final(self).coupons.m() == old(self).coupons.m(),
            final(self).usage == old(self).usage,
            final(self).next_coupon_id == old(self).next_coupon_id,
    {
        if !caller.eq_p(owner) {
            return Err(String::from_str("Only the owner can toggle coupon status"));
        }
        proof {
            self.coupons.lemma_filed_under_own_key(coupon_id@);
        }
        match self.coupons.remove(coupon_id) {
            Some(mut c) => {
                c.is_active = !c.is_active;
                c.updated_at = now;
                let new_status = c.is_active;
                self.coupons.insert(c);
                Ok(new_status)
            },
            None => Err(String::from_str("Coupon not found")),
        }
    }

    /// Strikes a coupon and its whole usage history.
    pub fn delete_coupon(&mut self, coupon_id: &String, caller: &Principal, owner: &Principal)
        -> (r: Result<(), String>)
        requires
            old(self).wf(),
        ensures
            final(self).wf(),
            r is Ok <==> (caller@ == owner@ && old(self).coupons.m().contains_key(coupon_id@)),
            r is Ok ==> final(self).coupons.m() == old(self).coupons.m().remove(coupon_id@)
                && final(self).usage.m() == old(self).usage.m().remove_keys(
                usage_keys_for(old(self).usage.m(), coupon_id@),
            ),
            r is Err ==> final(self).coupons.m() == old(self).coupons.m() && final(self).usage.m()
                == old(self).usage.m(),
            final(self).next_coupon_id == old(self).next_coupon_id,
    {
        if !caller.eq_p(owner) {
            return Err(String::from_str("Only the owner can delete coupons"));
        }
        if self.coupons.remove(coupon_id).is_none() {
            return Err(String::from_str("Coupon not found"));
        }
        let mut keys: Vec<String> = Vec::new();
        let n = self.usage.len();
        let mut i: usize = 0;
        while i < n
            invariant
                self.usage == old(self).usage,
                self.usage.wf(),
                n == self.usage.sq().len(),
                i <= n,
                forall|t: int|
                    0 <= t < keys@.len() ==> exists|j: int|
                        0 <= j < i && (#[trigger] keys@[t])@ == self.usage.sq()[j].usage_id
                            && self.usage.sq()[j].coupon_id == coupon_id@,
                forall|j: int|
                    0 <= j < i && (#[trigger] self.usage.sq()[j]).coupon_id == coupon_id@
                        ==> exists|t: int|
                        0 <= t < keys@.len() && (#[trigger] keys@[t])@
                            == self.usage.sq()[j].usage_id,
            decreases n - i,
        {
            let ghost keys0 = keys@;
            let u = self.usage.nth(i);
            if u.coupon_id.eq(coupon_id) {
                keys.push(u.usage_id.clone());
                proof {
                    assert((keys@[keys@.len() - 1])@ == self.usage.sq()[i as int].usage_id);
                }
            }
            proof {
                assert forall|j: int|
                    0 <= j < i + 1 && (#[trigger] self.usage.sq()[j]).coupon_id
                        == coupon_id@ implies exists|t: int|
                    0 <= t < keys@.len() && (#[trigger] keys@[t])@
                        == self.usage.sq()[j].usage_id by {
                    if j < i {
                        let t = choose|t: int|
                            0 <= t < keys0.len() && (#[trigger] keys0[t])@
                                == self.usage.sq()[j].usage_id;
                        assert((keys@[t])@ == self.usage.sq()[j].usage_id);
                    } else {
                        assert((keys@[keys@.len() - 1])@ == self.usage.sq()[j].usage_id);
                    }
                }
            }
            i += 1;
        }
        proof {
            let m = self.usage.m();
            assert forall|k: Seq<char>| key_set(keys@).contains(k) implies usage_keys_for(
                m,
                coupon_id@,
            ).contains(k) by {
                let t = choose|t: int| 0 <= t < keys@.len() && (#[trigger] keys@[t])@ == k;
                let j = choose|j: int|
                    0 <= j < n && (#[trigger] self.usage.sq()[j]).usage_id == k
                        && self.usage.sq()[j].coupon_id == coupon_id@;
                self.usage.lemma_nth_present(j);
            }
            assert forall|k: Seq<char>| usage_keys_for(m, coupon_id@).contains(k) implies key_set(
                keys@,
            ).contains(k) by {
                self.usage.lemma_key_present(k);
                let j = choose|j: int|
                    0 <= j < self.usage.sq().len() && <CouponUsage as TableItem>::view_key(
                        #[trigger] self.usage.sq()[j],
                    ) == k;
                self.usage.lemma_nth_present(j);
                assert(self.usage.sq()[j].coupon_id == coupon_id@);
            }
            assert(key_set(keys@) =~= usage_keys_for(m, coupon_id@));
        }
        self.usage.drain_keys(&keys);
        Ok(())
    }

    /// Every coupon, in storage order.
    pub fn list_my_coupons(&self) -> (r: Vec<&DiscountCoupon>)
        ensures
            ref_views(r@) == self.coupons.sq(),
    {
        self.coupons.all()
    }

    /// The coupons still usable now: active, unexpired, under their limit.
    pub fn list_active_coupons(&self, now: u64) -> (r: Vec<&DiscountCoupon>)
        ensures
            ref_views(r@) == live_coupons(self.coupons.sq(), now),
    {
        let n = self.coupons.len();
        let mut r: Vec<&DiscountCoupon> = Vec::new();
        let mut i: usize = 0;
        proof {
            assert(self.coupons.sq().take(0) =~= Seq::<DiscountCouponView>::empty());
            assert(ref_views(r@) =~= live_coupons(self.coupons.sq().take(0), now));
        }
        while i < n
            invariant
                n == self.coupons.sq().len(),
                i <= n,
                ref_views(r@) == live_coupons(self.coupons.sq().take(i as int), now),
            decreases n - i,
        {
            let c = self.coupons.nth(i);
            proof {
                assert(self.coupons.sq().take(i + 1).drop_last() =~= self.coupons.sq().take(
                    i as int,
                ));
                assert(self.coupons.sq().take(i + 1).last() == self.coupons.sq()[i as int]);
            }
            let usable = c.is_active && (match c.expires_at {
                Some(e) => e > now,
                None => true,
            }) && (match c.usage_limit {
                Some(l) => c.used_count < l,
                None => true,
            });
            if usable {
                r.push(c);
            }
            proof {
                assert(ref_views(r@) =~= live_coupons(self.coupons.sq().take(i + 1), now));
            }
            i += 1;
        }
        proof {
            assert(self.coupons.sq().take(n as int) =~= self.coupons.sq());
        }
        r
    }

    /// A coupon's recorded use count together with its usage records.
    pub fn get_coupon_usage_stats(&self, coupon_id: &String) -> (r: Result<
        (u32, Vec<&CouponUsage>),
        String,
    >)
        requires
            self.wf(),
        ensures
            r is Ok <==> self.coupons.m().contains_key(coupon_id@),
            r matches Ok(p) ==> p.0 == self.coupons.m()[coupon_id@].used_count && ref_views(p.1@)
                == usages_of(self.usage.sq(), coupon_id@),
    {
        let used_count = match self.coupons.get(coupon_id) {
            Some(c) => c.used_count,
            None => {
                return Err(String::from_str("Coupon not found"));
            },
        };
        let n = self.usage.len();
        let mut r: Vec<&CouponUsage> = Vec::new();
        let mut i: usize = 0;
        proof {
            assert(self.usage.sq().take(0) =~= Seq::<CouponUsageView>::empty());
            assert(ref_views(r@) =~= usages_of(self.usage.sq().take(0), coupon_id@));
        }
        while i < n
            invariant
                n == self.usage.sq().len(),
                i <= n,
                ref_views(r@) == usages_of(self.usage.sq().take(i as int), coupon_id@),
            decreases n - i,
        {
            let u = self.usage.nth(i);
            proof {
                assert(self.usage.sq().take(i + 1).drop_last() =~= self.usage.sq().take(i as int));
                assert(self.usage.sq().take(i + 1).last() == self.usage.sq()[i as int]);
            }
            if u.coupon_id.eq(coupon_id) {
                r.push(u);
            }
            proof {
                assert(ref_views(r@) =~= usages_of(self.usage.sq().take(i + 1), coupon_id@));
            }
            i += 1;
        }
        proof {
            assert(self.usage.sq().take(n as int) =~= self.usage.sq());
        }
        Ok((used_count, r))
    }

    /// Clears every coupon and the whole usage history, handing back how
    /// many coupons were struck.
    pub fn admin_clear_all_coupons(&mut self, caller: &Principal, owner: &Principal) -> (r: Result<
        u32,
        String,
    >)
        requires
            old(self).wf(),
        ensures
            final(self).wf(),
            r is Ok <==> caller@ == owner@,
            r matches Ok(c) ==> c == old(self).coupons.sq().len() as u32
                && final(self).coupons.sq() == Seq::<DiscountCouponView>::empty()
                && final(self).usage.sq() == Seq::<CouponUsageView>::empty(),
            r is Err ==> final(self).coupons.m() == old(self).coupons.m() && final(self).usage.m()
                == old(self).usage.m(),
            final(self).next_coupon_id == old(self).next_coupon_id,
    {
        if !caller.eq_p(owner) {
            return Err(String::from_str("Only the owner can clear all coupons"));
        }
        let count = self.coupons.len();
        self.coupons.clear();
        self.usage.clear();
        Ok(#[verifier::truncate] (count as u32))
    }
}

/// The coupon table after one use of coupon `c`: its count steps up
/// and its timestamp refreshes.
pub open spec fn coupons_after_use(
    m: Map<Seq<char>, DiscountCouponView>,
    c: DiscountCouponView,
    now: u64,
) -> Map<Seq<char>, DiscountCouponView> {
    m.insert(
        c.coupon_id,
        DiscountCouponView { used_count: bump_count(c.used_count), updated_at: now, ..c },
    )
}

/// The usage history after one use of coupon `c` by `caller`.
pub open spec fn usage_after_use(
    m: Map<Seq<char>, CouponUsageView>,
    c: DiscountCouponView,
    amount: u64,
    caller: Seq<char>,
    now: u64,
) -> Map<Seq<char>, CouponUsageView> {
    m.insert(
        usage_id_of(c.coupon_id, now),
        CouponUsageView {
            usage_id: usage_id_of(c.coupon_id, now),
            coupon_id: c.coupon_id,
            user_principal: caller,
            invoice_id: "pending_"@ + dec_digits(now as int),
            discount_applied: spec_discount(c.coupon_type, amount) as u64,
            used_at: now,
        },
    )
}

/// The usage-record keys that belong to one coupon.
pub open spec fn usage_keys_for(m: Map<Seq<char>, CouponUsageView>, coupon_id: Seq<char>) -> Set<
    Seq<char>,
> {
    Set::new(|k: Seq<char>| m.contains_key(k) && m[k].coupon_id == coupon_id)
}

} // verus!
