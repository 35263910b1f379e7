use vstd::prelude::*;
use vstd::string::StringExecFns;
use vstd::string::StrSliceExecFns;

use crate::principal::Principal;
use crate::table::{Table, TableItem};
use crate::util::{make_id, ref_views, strings_view};

verus! {

/// Colors and typography of an embedded payment dialog.
#[derive(Debug)]
pub struct ModalTheme {
    pub primary_color: String,
    pub background_color: String,
    pub text_color: String,
    pub border_radius: u32,
    pub font_family: String,
}

pub struct ModalThemeView {
    pub primary_color: Seq<char>,
    pub background_color: Seq<char>,
    pub text_color: Seq<char>,
    pub border_radius: u32,
    pub font_family: Seq<char>,
}

impl View for ModalTheme {
    type V = ModalThemeView;

    open spec fn view(&self) -> ModalThemeView {
        ModalThemeView {
            primary_color: self.primary_color@,
            background_color: self.background_color@,
            text_color: self.text_color@,
            border_radius: self.border_radius,
            font_family: self.font_family@,
        }
    }
}

/// What a payment dialog asks of the payer.
#[derive(Debug)]
pub struct PaymentOptions {
    pub allowed_tokens: Vec<String>,
    pub require_email: bool,
    pub require_shipping: bool,
    pub show_amount_breakdown: bool,
    pub enable_tips: bool,
}

pub struct PaymentOptionsView {
    pub allowed_tokens: Seq<Seq<char>>,
    pub require_email: bool,
    pub require_shipping: bool,
    pub show_amount_breakdown: bool,
    pub enable_tips: bool,
}

impl View for PaymentOptions {
    type V = PaymentOptionsView;

    open spec fn view(&self) -> PaymentOptionsView {
        PaymentOptionsView {
            allowed_tokens: strings_view(self.allowed_tokens@),
            require_email: self.require_email,
            require_shipping: self.require_shipping,
            show_amount_breakdown: self.show_amount_breakdown,
            enable_tips: self.enable_tips,
        }
    }
}

/// The merchant's marks on a payment dialog.
#[derive(Debug)]
pub struct BrandingConfig {
    pub logo_url: Option<String>,
    pub company_name: String,
    pub support_url: Option<String>,
    pub terms_url: Option<String>,
}

pub struct BrandingConfigView {
    pub logo_url: Option<Seq<char>>,
    pub company_name: Seq<char>,
    pub support_url: Option<Seq<char>>,
    pub terms_url: Option<Seq<char>>,
}

impl View for BrandingConfig {
    type V = BrandingConfigView;

    open spec fn view(&self) -> BrandingConfigView {
        BrandingConfigView {
            logo_url: match self.logo_url {
                Option::Some(u) => Option::Some(u@),
                Option::None => Option::None,
            },
            company_name: self.company_name@,
            support_url: match self.support_url {
                Option::Some(u) => Option::Some(u@),
                Option::None => Option::None,
            },
            terms_url: match self.terms_url {
                Option::Some(u) => Option::Some(u@),
                Option::None => Option::None,
            },
        }
    }
}

/// Where a payment dialog sends the payer afterwards.
#[derive(Debug)]
pub struct RedirectUrls {
    pub success_url: String,
    pub cancel_url: String,
    pub webhook_url: Option<String>,
}

pub struct RedirectUrlsView {
    pub success_url: Seq<char>,
    pub cancel_url: Seq<char>,
    pub webhook_url: Option<Seq<char>>,
}

impl View for RedirectUrls {
    type V = RedirectUrlsView;

    open spec fn view(&self) -> RedirectUrlsView {
        RedirectUrlsView {
            success_url: self.success_url@,
            cancel_url: self.cancel_url@,
            webhook_url: match self.webhook_url {
                Option::Some(u) => Option::Some(u@),
                Option::None => Option::None,
            },
        }
    }
}

/// One configured payment dialog.
#[derive(Debug)]
pub struct ModalConfig {
    pub modal_id: String,
    pub name: String,
    pub description: Option<String>,
    pub theme: ModalTheme,
    pub payment_options: PaymentOptions,
    pub branding: BrandingConfig,
    pub redirect_urls: RedirectUrls,
    pub template_id: Option<String>,
    pub created_at: u64,
    pub updated_at: u64,
    pub is_active: bool,
}

pub struct ModalConfigView {
    pub modal_id: Seq<char>,
    pub name: Seq<char>,
    pub description: Option<Seq<char>>,
    pub theme: ModalThemeView,
    pub payment_options: PaymentOptionsView,
    pub branding: BrandingConfigView,
    pub redirect_urls: RedirectUrlsView,
    pub template_id: Option<Seq<char>>,
    pub created_at: u64,
    pub updated_at: u64,
    pub is_active: bool,
}

impl View for ModalConfig {
    type V = ModalConfigView;

    open spec fn view(&self) -> ModalConfigView {
        ModalConfigView {
            modal_id: self.modal_id@,
            name: self.name@,
            description: match self.description {
                Option::Some(d) => Option::Some(d@),
                Option::None => Option::None,
            },
            theme: self.theme@,
            payment_options: self.payment_options@,
            branding: self.branding@,
            redirect_urls: self.redirect_urls@,
            template_id: match self.template_id {
                Option::Some(t) => Option::Some(t@),
                Option::None => Option::None,
            },
            created_at: self.created_at,
            updated_at: self.updated_at,
            is_active: self.is_active,
        }
    }
}

impl TableItem for ModalConfig {
    open spec fn view_key(v: ModalConfigView) -> Seq<char> {
        v.modal_id
    }

    fn key(&self) -> (k: &String) {
        &self.modal_id
    }
}

/// A dialog's view and payment counters. Ratios between them are left
/// to the callers that present them.
#[derive(Debug)]
pub struct ModalAnalytics {
    pub modal_id: String,
    pub total_views: u64,
    pub successful_payments: u64,
    pub revenue_generated: u64,
}

pub struct ModalAnalyticsView {
    pub modal_id: Seq<char>,
    pub total_views: u64,
    pub successful_payments: u64,
    pub revenue_generated: u64,
}

impl View for ModalAnalytics {
    type V = ModalAnalyticsView;

    open spec fn view(&self) -> ModalAnalyticsView {
        ModalAnalyticsView {
            modal_id: self.modal_id@,
            total_views: self.total_views,
            successful_payments: self.successful_payments,
            revenue_generated: self.revenue_generated,
        }
    }
}

impl TableItem for ModalAnalytics {
    open spec fn view_key(v: ModalAnalyticsView) -> Seq<char> {
        v.modal_id
    }

    fn key(&self) -> (k: &String) {
        &self.modal_id
    }
}

/// A modal configuration passes: a name, a company name and both
/// redirect addresses.
pub open spec fn modal_config_ok(c: ModalConfigView) -> bool {
    &&& c.name.len() > 0
    &&& c.branding.company_name.len() > 0
    &&& c.redirect_urls.success_url.len() > 0
    &&& c.redirect_urls.cancel_url.len() > 0
}

/// The analytics table after one settled payment through the default
/// dialog: its counters step up if it has an entry, and nothing else
/// moves.
pub open spec fn modal_stats_after_payment(
    m: Map<Seq<char>, ModalAnalyticsView>,
    amount: u64,
) -> Map<Seq<char>, ModalAnalyticsView> {
    if m.contains_key("modal_1"@) {
        let s = m["modal_1"@];
        m.insert(
            "modal_1"@,
            ModalAnalyticsView {
                successful_payments: crate::product::sat_add64(s.successful_payments, 1),
                revenue_generated: crate::product::sat_add64(s.revenue_generated, amount),
                ..s
            },
        )
    } else {
        m
    }
}

/// The per-tenant dialog tables: the configurations, their counters,
/// and the id counter.
pub struct ModalEngine {
    pub modals: Table<ModalConfig>,
    pub stats: Table<ModalAnalytics>,
    pub next_modal_id: u64,
}

impl ModalEngine {
    pub open spec fn wf(&self) -> bool {
        &&& self.modals.wf()
        &&& self.stats.wf()
    }

    pub fn new() -> (s: Self)
        ensures
            s.wf(),
            s.modals.sq() == Seq::<ModalConfigView>::empty(),
            s.stats.sq() == Seq::<ModalAnalyticsView>::empty(),
            s.next_modal_id == 2,
    {
        ModalEngine { modals: Table::new(), stats: Table::new(), next_modal_id: 2 }
    }

    /// Files a new dialog and opens its counters at zero.
    pub fn create_modal_config(
        &mut self,
        config: ModalConfig,
        caller: &Principal,
        owner: &Principal,
        now: u64,
    ) -> (r: Result<String, String>)
        requires
            old(self).wf(),
            old(self).next_modal_id < u64::MAX,
        ensures
            final(self).wf(),
            r is Ok <==> (caller@ == owner@ && modal_config_ok(config@)),
            r matches Ok(id) ==> {
                let mid = crate::util::serial_id("modal_"@, old(self).next_modal_id as int);
                let v = ModalConfigView { modal_id: mid, created_at: now, updated_at: now, ..config@ };
                let z = ModalAnalyticsView {
                    modal_id: mid,
                    total_views: 0,
                    successful_payments: 0,
                    revenue_generated: 0,
                };
                &&& id@ == mid
                &&& final(self).modals.m() == old(self).modals.m().insert(mid, v)
                &&& final(self).stats.m() == old(self).stats.m().insert(mid, z)
                &&& final(self).next_modal_id == old(self).next_modal_id + 1
            },
            r is Err ==> final(self).modals.m() == old(self).modals.m() && final(self).stats.m()
                == old(self).stats.m() && final(self).next_modal_id == old(self).next_modal_id,
    {
        if !caller.eq_p(owner) {
            return Err(String::from_str("Only the owner can create modal configurations"));
        }
        if config.name.as_str().unicode_len() == 0 {
            return Err(String::from_str("Modal name cannot be empty"));
        }
        if config.branding.company_name.as_str().unicode_len() == 0 {
            return Err(String::from_str("Company name cannot be empty"));
        }
        if config.redirect_urls.success_url.as_str().unicode_len() == 0 {
            return Err(String::from_str("Success URL cannot be empty"));
        }
        if config.redirect_urls.cancel_url.as_str().unicode_len() == 0 {
            return Err(String::from_str("Cancel URL cannot be empty"));
        }
        let id = make_id("modal_", self.next_modal_id);
        self.next_modal_id = self.next_modal_id + 1;
        let stored = ModalConfig {
            modal_id: id.clone(),
            name: config.name,
            description: config.description,
            theme: config.theme,
            payment_options: config.payment_options,
            branding: config.branding,
            redirect_urls: config.redirect_urls,
            template_id: config.template_id,
            created_at: now,
            updated_at: now,
            is_active: config.is_active,
        };
        self.modals.insert(stored);
        let zero = ModalAnalytics {
            modal_id: id.clone(),
            total_views: 0,
            successful_payments: 0,
            revenue_generated: 0,
        };
        self.stats.insert(zero);
        Ok(id)
    }

    /// Rewrites a dialog, keeping its identity and creation time.
    pub fn update_modal_config(
        &mut self,
        modal_id: &String,
        config: ModalConfig,
        caller: &Principal,
        owner: &Principal,
        now: u64,
    ) -> (r: Result<(), String>)
        requires
            old(self).wf(),
        ensures
            final(self).wf(),
            r is Ok <==> (caller@ == owner@ && modal_config_ok(config@)
                && old(self).modals.m().contains_key(modal_id@)),
            r is Ok ==> {
                let prev = old(self).modals.m()[modal_id@];
                let v = ModalConfigView {
                    modal_id: modal_id@,
                    created_at: prev.created_at,
                    updated_at: now,
                    ..config@
                };
                final(self).modals.m() == old(self).modals.m().insert(modal_id@, v)
            },
            r is Err ==> final(self).modals.m() == old(self).modals.m(),
            final(self).stats == old(self).stats,
            final(self).next_modal_id == old(self).next_modal_id,
    {
        if !caller.eq_p(owner) {
            return Err(String::from_str("Only the owner can update modal configurations"));
        }
        if config.name.as_str().unicode_len() == 0 {
            return Err(String::from_str("Modal name cannot be empty"));
        }
        if config.branding.company_name.as_str().unicode_len() == 0 {
            return Err(String::from_str("Company name cannot be empty"));
        }
        if config.redirect_urls.success_url.as_str().unicode_len() == 0 {
            return Err(String::from_str("Success URL cannot be empty"));
        }
        if config.redirect_urls.cancel_url.as_str().unicode_len() == 0 {
            return Err(String::from_str("Cancel URL cannot be empty"));
        }
        let kept_created = match self.modals.get(modal_id) {
            Some(m) => m.created_at,
            None => {
                return Err(String::from_str("Modal configuration not found"));
            },
        };
        let stored = ModalConfig {
            modal_id: modal_id.clone(),
            name: config.name,
            description: config.description,
            theme: config.theme,
            payment_options: config.payment_options,
            branding: config.branding,
            redirect_urls: config.redirect_urls,
            template_id: config.template_id,
            created_at: kept_created,
            updated_at: now,
            is_active: config.is_active,
        };
        self.modals.insert(stored);
        Ok(())
    }

    pub fn get_modal_config(&self, modal_id: &String) -> (r: Option<&ModalConfig>)
        requires
            self.wf(),
        ensures
            match r {
                Some(m) => self.modals.m().contains_key(modal_id@) && m@ == self.modals.m()[
                    modal_id@
                ],
                None => !self.modals.m().contains_key(modal_id@),
            },
    {
        self.modals.get(modal_id)
    }

    pub fn list_my_modals(&self) -> (r: Vec<&ModalConfig>)
        ensures
            ref_views(r@) == self.modals.sq(),
    {
        self.modals.all()
    }

    /// Strikes a dialog and its counters.
    pub fn delete_modal_config(&mut self, modal_id: &String, caller: &Principal, owner: &Principal)
        -> (r: Result<(), String>)
        requires
            old(self).wf(),
        ensures
            final(self).wf(),
            r is Ok <==> (caller@ == owner@ && old(self).modals.m().contains_key(modal_id@)),
            r is Ok ==> final(self).modals.m() == old(self).modals.m().remove(modal_id@)
                && final(self).stats.m() == old(self).stats.m().remove(modal_id@),
            r is Err ==> final(self).modals.m() == old(self).modals.m() && final(self).stats.m()
                == old(self).stats.m(),
            final(self).next_modal_id == old(self).next_modal_id,
    {
        if !caller.eq_p(owner) {
            return Err(String::from_str("Only the owner can delete modal configurations"));
        }
        if self.modals.remove(modal_id).is_none() {
            return Err(String::from_str("Modal configuration not found"));
        }
        self.stats.remove(modal_id);
        Ok(())
    }

    /// Counts one more view of a dialog.
    pub fn track_modal_view(&mut self, modal_id: &String) -> (r: Result<(), String>)
        requires
            old(self).wf(),
        ensures
            final(self).wf(),
            r is Ok <==> old(self).stats.m().contains_key(modal_id@),
            r is Ok ==> {
                let s = old(self).stats.m()[modal_id@];
                let v = ModalAnalyticsView {
                    total_views: crate::product::sat_add64(s.total_views, 1),
                    ..s
                };
                final(self).stats.m() == old(self).stats.m().insert(modal_id@, v)
            },
            r is Err ==> final(self).stats.m() == old(self).stats.m(),
            final(self).modals == old(self).modals,
            final(self).next_modal_id == old(self).next_modal_id,
    {
        proof {
            self.stats.lemma_filed_under_own_key(modal_id@);
        }
        match self.stats.remove(modal_id) {
            Some(mut s) => {
                s.total_views = if s.total_views == u64::MAX {
                    u64::MAX
                } else {
                    s.total_views + 1
                };
                self.stats.insert(s);
                Ok(())
            },
            None => Err(String::from_str("Modal analytics not found")),
        }
    }

    pub fn get_modal_analytics(&self, modal_id: &String) -> (r: Option<&ModalAnalytics>)
        requires
            self.wf(),
        ensures
            match r {
                Some(s) => self.stats.m().contains_key(modal_id@) && s@ == self.stats.m()[
                    modal_id@
                ],
                None => !self.stats.m().contains_key(modal_id@),
            },
    {
        self.stats.get(modal_id)
    }

    /// Counts one settled payment against the default dialog's figures.
    pub fn track_payment_analytics(&mut self, token_symbol: &String, amount: u64)
        requires
            old(self).wf(),
        ensures
            final(self).wf(),
            final(self).stats.m() == modal_stats_after_payment(old(self).stats.m(), amount),
            final(self).modals == old(self).modals,
            final(self).next_modal_id == old(self).next_modal_id,
    {
        let _ = token_symbol;
        let key = String::from_str("modal_1");
        proof {
            self.stats.lemma_filed_under_own_key("modal_1"@);
        }
        match self.stats.remove(&key) {
            Some(mut s) => {
                s.successful_payments = if s.successful_payments == u64::MAX {
                    u64::MAX
                } else {
                    s.successful_payments + 1
                };
                s.revenue_generated = if amount > u64::MAX - s.revenue_generated {
                    u64::MAX
                } else {
                    s.revenue_generated + amount
                };
                self.stats.insert(s);
            },
            None => {
                proof {
                    assert(self.stats.m() =~= modal_stats_after_payment(
                        old(self).stats.m(),
                        amount,
                    ));
                }
            },
        }
    }
}

} // verus!
