use vstd::prelude::*;
use vstd::string::StringExecFns;
use vstd::string::StrSliceExecFns;

use crate::config::{has_active_token, UserCanisterConfig};
use crate::principal::Principal;
use crate::table::{key_set, Table, TableItem};
use crate::util::{contains_string, make_id, pairs_view, ref_views, strings_contain};

verus! {

/// Whether a product can currently be bought.
#[derive(Clone, Copy, PartialEq, Eq, Structural, Debug)]
pub enum ProductStatus {
    Active,
    Inactive,
    OutOfStock,
}

/// A catalog entry: a priced good in one supported token, with optional
/// category, image and inventory.
#[derive(Debug)]
pub struct Product {
    pub product_id: String,
    pub name: String,
    pub description: String,
    pub price: u64,
    pub token_symbol: String,
    pub category: Option<String>,
    pub image_url: Option<String>,
    pub status: ProductStatus,
    pub inventory_count: Option<u32>,
    pub metadata: Vec<(String, String)>,
    pub created_at: u64,
    pub updated_at: u64,
}

pub struct ProductView {
    pub product_id: Seq<char>,
    pub name: Seq<char>,
    pub description: Seq<char>,
    pub price: u64,
    pub token_symbol: Seq<char>,
    pub category: Option<Seq<char>>,
    pub image_url: Option<Seq<char>>,
    pub status: ProductStatus,
    pub inventory_count: Option<u32>,
    pub metadata: Seq<(Seq<char>, Seq<char>)>,
    pub created_at: u64,
    pub updated_at: u64,
}

impl View for Product {
    type V = ProductView;

    open spec fn view(&self) -> ProductView {
        ProductView {
            product_id: self.product_id@,
            name: self.name@,
            description: self.description@,
            price: self.price,
            token_symbol: self.token_symbol@,
            category: match self.category {
                Option::Some(c) => Option::Some(c@),
                Option::None => Option::None,
            },
            image_url: match self.image_url {
                Option::Some(u) => Option::Some(u@),
                Option::None => Option::None,
            },
            status: self.status,
            inventory_count: self.inventory_count,
            metadata: pairs_view(self.metadata@),
            created_at: self.created_at,
            updated_at: self.updated_at,
        }
    }
}

impl TableItem for Product {
    open spec fn view_key(v: ProductView) -> Seq<char> {
        v.product_id
    }

    fn key(&self) -> (k: &String) {
        &self.product_id
    }
}

/// Running sales figures for one product.
#[derive(Debug)]
pub struct ProductSalesStats {
    pub product_id: String,
    pub total_sales: u64,
    pub total_revenue: u64,
    pub units_sold: u32,
    pub last_sale_at: Option<u64>,
}

pub struct ProductSalesStatsView {
    pub product_id: Seq<char>,
    pub total_sales: u64,
    pub total_revenue: u64,
    pub units_sold: u32,
    pub last_sale_at: Option<u64>,
}

impl View for ProductSalesStats {
    type V = ProductSalesStatsView;

    open spec fn view(&self) -> ProductSalesStatsView {
        ProductSalesStatsView {
            product_id: self.product_id@,
            total_sales: self.total_sales,
            total_revenue: self.total_revenue,
            units_sold: self.units_sold,
            last_sale_at: self.last_sale_at,
        }
    }
}

impl TableItem for ProductSalesStats {
    open spec fn view_key(v: ProductSalesStatsView) -> Seq<char> {
        v.product_id
    }

    fn key(&self) -> (k: &String) {
        &self.product_id
    }
}

/// A sum stopped at the machine limit.
pub open spec fn sat_add64(a: u64, b: u64) -> u64 {
    if a + b > u64::MAX {
        u64::MAX
    } else {
        (a + b) as u64
    }
}

/// A count stopped at the machine limit.
pub open spec fn sat_inc32(a: u32) -> u32 {
    if a == u32::MAX {
        u32::MAX
    } else {
        (a + 1) as u32
    }
}

/// The sales table after one sale of `product_id` for `amount`: the
/// product's figures step up if it has an entry, and nothing else moves.
pub open spec fn stats_after_sale(
    m: Map<Seq<char>, ProductSalesStatsView>,
    product_id: Seq<char>,
    amount: u64,
    now: u64,
) -> Map<Seq<char>, ProductSalesStatsView> {
    if m.contains_key(product_id) {
        let s = m[product_id];
        m.insert(
            product_id,
            ProductSalesStatsView {
                total_sales: sat_add64(s.total_sales, 1),
                total_revenue: sat_add64(s.total_revenue, amount),
                units_sold: sat_inc32(s.units_sold),
                last_sale_at: Option::Some(now),
                ..s
            },
        )
    } else {
        m
    }
}

/// The catalog after one sale of `product_id`: a counted inventory goes
/// down one unit, hitting zero marks the product out of stock, and an
/// uncounted or absent product is untouched.
pub open spec fn products_after_sale(
    m: Map<Seq<char>, ProductView>,
    product_id: Seq<char>,
    now: u64,
) -> Map<Seq<char>, ProductView> {
    if m.contains_key(product_id) && (m[product_id].inventory_count matches Some(c) && c > 0) {
        let p = m[product_id];
        let c = p.inventory_count->Some_0;
        m.insert(
            product_id,
            ProductView {
                inventory_count: Option::Some((c - 1) as u32),
                status: (if c == 1 {
                    ProductStatus::OutOfStock
                } else {
                    p.status
                }),
                updated_at: now,
                ..p
            },
        )
    } else {
        m
    }
}

/// The products of `s` whose status passes `want`, in order.
pub open spec fn products_with_status(s: Seq<ProductView>, want: ProductStatus) -> Seq<ProductView>
    decreases s.len(),
{
    if s.len() == 0 {
        Seq::<ProductView>::empty()
    } else {
        let rest = products_with_status(s.drop_last(), want);
        if s.last().status == want {
            rest.push(s.last())
        } else {
            rest
        }
    }
}

/// The products of `s` filed under a category, in order.
pub open spec fn products_in_category(s: Seq<ProductView>, category: Seq<char>) -> Seq<ProductView>
    decreases s.len(),
{
    if s.len() == 0 {
        Seq::<ProductView>::empty()
    } else {
        let rest = products_in_category(s.drop_last(), category);
        if s.last().category == Option::Some(category) {
            rest.push(s.last())
        } else {
            rest
        }
    }
}

/// The products of `s` priced in one token, in order.
pub open spec fn products_in_token(s: Seq<ProductView>, token: Seq<char>) -> Seq<ProductView>
    decreases s.len(),
{
    if s.len() == 0 {
        Seq::<ProductView>::empty()
    } else {
        let rest = products_in_token(s.drop_last(), token);
        if s.last().token_symbol == token {
            rest.push(s.last())
        } else {
            rest
        }
    }
}

/// Every listed category is carried by some product of `s`.
pub open spec fn categories_sound(s: Seq<ProductView>, r: Seq<String>) -> bool {
    forall|a: int|
        0 <= a < r.len() ==> exists|p: int|
            0 <= p < s.len() && (#[trigger] s[p]).category == Option::Some((#[trigger] r[a])@)
}

/// How many products of `s` carry status `want`.
pub open spec fn count_with_status(s: Seq<ProductView>, want: ProductStatus) -> int
    decreases s.len(),
{
    if s.len() == 0 {
        0
    } else {
        count_with_status(s.drop_last(), want) + (if s.last().status == want {
            1int
        } else {
            0int
        })
    }
}

/// The per-tenant product tables: the catalog, the sales figures, and
/// the id counter.
pub struct ProductEngine {
    pub products: Table<Product>,
    pub stats: Table<ProductSalesStats>,
    pub next_product_id: u64,
}

impl ProductEngine {
    pub open spec fn wf(&self) -> bool {
        &&& self.products.wf()
        &&& self.stats.wf()
    }

    pub fn new() -> (s: Self)
        ensures
            s.wf(),
            s.products.sq() == Seq::<ProductView>::empty(),
            s.stats.sq() == Seq::<ProductSalesStatsView>::empty(),
            s.next_product_id == 1,
    {
        ProductEngine { products: Table::new(), stats: Table::new(), next_product_id: 1 }
    }

    /// Files a new product and opens its sales figures at zero.
    pub fn create_product(
        &mut self,
        product: Product,
        config: &UserCanisterConfig,
        caller: &Principal,
        owner: &Principal,
        now: u64,
    ) -> (r: Result<String, String>)
        requires
            old(self).wf(),
            old(self).next_product_id < u64::MAX,
        ensures
            final(self).wf(),
            r is Ok <==> (caller@ == owner@ && product@.name.len() > 0
                && product@.description.len() > 0 && product@.price > 0
                && product@.token_symbol.len() > 0 && has_active_token(
                config@.supported_tokens,
                product@.token_symbol,
            )),
            r matches Ok(id) ==> {
                let pid = crate::util::serial_id("product_"@, old(self).next_product_id as int);
                let v = ProductView { product_id: pid, created_at: now, updated_at: now, ..product@ };
                let z = ProductSalesStatsView {
                    product_id: pid,
                    total_sales: 0,
                    total_revenue: 0,
                    units_sold: 0,
                    last_sale_at: Option::None,
                };
                &&& id@ == pid
                &&& final(self).products.m() == old(self).products.m().insert(pid, v)
                &&& final(self).stats.m() == old(self).stats.m().insert(pid, z)
                &&& final(self).next_product_id == old(self).next_product_id + 1
            },
            r is Err ==> final(self).products.m() == old(self).products.m() && final(self).stats.m()
                == old(self).stats.m() && final(self).next_product_id == old(self).next_product_id,
    {
        if !caller.eq_p(owner) {
            return Err(String::from_str("Only the owner can create products"));
        }
        if product.name.as_str().unicode_len() == 0 {
            return Err(String::from_str("Product name cannot be empty"));
        }
        if product.description.as_str().unicode_len() == 0 {
            return Err(String::from_str("Product description cannot be empty"));
        }
        if product.price == 0 {
            return Err(String::from_str("Product price must be greater than 0"));
        }
        if product.token_symbol.as_str().unicode_len() == 0 {
            return Err(String::from_str("Product token symbol cannot be empty"));
        }
        if !config.has_active_token_exec(&product.token_symbol) {
            return Err(String::from_str("Token not supported or inactive"));
        }
        let id = make_id("product_", self.next_product_id);
        self.next_product_id = self.next_product_id + 1;
        let stored = Product {
            product_id: id.clone(),
            name: product.name,
            description: product.description,
            price: product.price,
            token_symbol: product.token_symbol,
            category: product.category,
            image_url: product.image_url,
            status: product.status,
            inventory_count: product.inventory_count,
            metadata: product.metadata,
            created_at: now,
            updated_at: now,
        };
        self.products.insert(stored);
        let zero = ProductSalesStats {
            product_id: id.clone(),
            total_sales: 0,
            total_revenue: 0,
            units_sold: 0,
            last_sale_at: None,
        };
        self.stats.insert(zero);
        Ok(id)
    }

    /// Rewrites a product, keeping its identity and creation time.
    pub fn update_product(
        &mut self,
        product_id: &String,
        updated: Product,
        config: &UserCanisterConfig,
        caller: &Principal,
        owner: &Principal,
        now: u64,
    ) -> (r: Result<(), String>)
        requires
            old(self).wf(),
        ensures
            final(self).wf(),
            r is Ok <==> (caller@ == owner@ && updated@.name.len() > 0
                && updated@.description.len() > 0 && updated@.price > 0
                && updated@.token_symbol.len() > 0 && has_active_token(
                config@.supported_tokens,
                updated@.token_symbol,
            ) && old(self).products.m().contains_key(product_id@)),
            r is Ok ==> {
                let prev = old(self).products.m()[product_id@];
                let v = ProductView {
                    product_id: product_id@,
                    created_at: prev.created_at,
                    updated_at: now,
                    ..updated@
                };
                final(self).products.m() == old(self).products.m().insert(product_id@, v)
            },
            r is Err ==> final(self).products.m() == old(self).products.m(),
            final(self).stats == old(self).stats,
            final(self).next_product_id == old(self).next_product_id,
    {
        if !caller.eq_p(owner) {
            return Err(String::from_str("Only the owner can update products"));
        }
        if updated.name.as_str().unicode_len() == 0 {
            return Err(String::from_str("Product name cannot be empty"));
        }
        if updated.description.as_str().unicode_len() == 0 {
            return Err(String::from_str("Product description cannot be empty"));
        }
        if updated.price == 0 {
            return Err(String::from_str("Product price must be greater than 0"));
        }
        if updated.token_symbol.as_str().unicode_len() == 0 {
            return Err(String::from_str("Product token symbol cannot be empty"));
        }
        if !config.has_active_token_exec(&updated.token_symbol) {
            return Err(String::from_str("Token not supported or inactive"));
        }
        let kept_created = match self.products.get(product_id) {
            Some(p) => p.created_at,
            None => {
                return Err(String::from_str("Product not found"));
            },
        };
        let stored = Product {
            product_id: product_id.clone(),
            name: updated.name,
            description: updated.description,
            price: updated.price,
            token_symbol: updated.token_symbol,
            category: updated.category,
            image_url: updated.image_url,
            status: updated.status,
            inventory_count: updated.inventory_count,
            metadata: updated.metadata,
            created_at: kept_created,
            updated_at: now,
        };
        self.products.insert(stored);
        Ok(())
    }

    pub fn get_product(&self, product_id: &String) -> (r: Option<&Product>)
        requires
            self.wf(),
        ensures
            match r {
                Some(p) => self.products.m().contains_key(product_id@) && p@ == self.products.m()[
                    product_id@
                ],
                None => !self.products.m().contains_key(product_id@),
            },
    {
        self.products.get(product_id)
    }

    pub fn list_products(&self) -> (r: Vec<&Product>)
        ensures
            ref_views(r@) == self.products.sq(),
    {
        self.products.all()
    }

    pub fn list_active_products(&self) -> (r: Vec<&Product>)
        ensures
            ref_views(r@) == products_with_status(self.products.sq(), ProductStatus::Active),
    {
        let n = self.products.len();
        let mut r: Vec<&Product> = Vec::new();
        let mut i: usize = 0;
        proof {
            assert(self.products.sq().take(0) =~= Seq::<ProductView>::empty());
            assert(ref_views(r@) =~= products_with_status(
                self.products.sq().take(0),
                ProductStatus::Active,
            ));
        }
        while i < n
            invariant
                n == self.products.sq().len(),
                i <= n,
                ref_views(r@) == products_with_status(
                    self.products.sq().take(i as int),
                    ProductStatus::Active,
                ),
            decreases n - i,
        {
            let p = self.products.nth(i);
            proof {
                assert(self.products.sq().take(i + 1).drop_last() =~= self.products.sq().take(
                    i as int,
                ));
                assert(self.products.sq().take(i + 1).last() == self.products.sq()[i as int]);
            }
            let is_active = match p.status {
                ProductStatus::Active => true,
                _ => false,
            };
            if is_active {
                r.push(p);
            }
            proof {
                assert(ref_views(r@) =~= products_with_status(
                    self.products.sq().take(i + 1),
                    ProductStatus::Active,
                ));
            }
            i += 1;
        }
        proof {
            assert(self.products.sq().take(n as int) =~= self.products.sq());
        }
        r
    }

    pub fn list_products_by_category(&self, category: &String) -> (r: Vec<&Product>)
        ensures
            ref_views(r@) == products_in_category(self.products.sq(), category@),
    {
        let n = self.products.len();
        let mut r: Vec<&Product> = Vec::new();
        let mut i: usize = 0;
        proof {
            assert(self.products.sq().take(0) =~= Seq::<ProductView>::empty());
            assert(ref_views(r@) =~= products_in_category(self.products.sq().take(0), category@));
        }
        while i < n
            invariant
                n == self.products.sq().len(),
                i <= n,
                ref_views(r@) == products_in_category(self.products.sq().take(i as int), category@),
            decreases n - i,
        {
            let p = self.products.nth(i);
            proof {
                assert(self.products.sq().take(i + 1).drop_last() =~= self.products.sq().take(
                    i as int,
                ));
                assert(self.products.sq().take(i + 1).last() == self.products.sq()[i as int]);
            }
            let matched = match &p.category {
                Some(c) => c.eq(category),
                None => false,
            };
            if matched {
                r.push(p);
            }
            proof {
                assert(ref_views(r@) =~= products_in_category(
                    self.products.sq().take(i + 1),
                    category@,
                ));
            }
            i += 1;
        }
        proof {
            assert(self.products.sq().take(n as int) =~= self.products.sq());
        }
        r
    }

    pub fn list_products_by_token(&self, token_symbol: &String) -> (r: Vec<&Product>)
        ensures
            ref_views(r@) == products_in_token(self.products.sq(), token_symbol@),
    {
        let n = self.products.len();
        let mut r: Vec<&Product> = Vec::new();
        let mut i: usize = 0;
        proof {
            assert(self.products.sq().take(0) =~= Seq::<ProductView>::empty());
            assert(ref_views(r@) =~= products_in_token(self.products.sq().take(0), token_symbol@));
        }
        while i < n
            invariant
                n == self.products.sq().len(),
                i <= n,
                ref_views(r@) == products_in_token(
                    self.products.sq().take(i as int),
                    token_symbol@,
                ),
            decreases n - i,
        {
            let p = self.products.nth(i);
            proof {
                assert(self.products.sq().take(i + 1).drop_last() =~= self.products.sq().take(
                    i as int,
                ));
                assert(self.products.sq().take(i + 1).last() == self.products.sq()[i as int]);
            }
            if p.token_symbol.eq(token_symbol) {
                r.push(p);
            }
            proof {
                assert(ref_views(r@) =~= products_in_token(
                    self.products.sq().take(i + 1),
                    token_symbol@,
                ));
            }
            i += 1;
        }
        proof {
            assert(self.products.sq().take(n as int) =~= self.products.sq());
        }
        r
    }

    /// Strikes a product and its sales figures.
    pub fn delete_product(&mut self, product_id: &String, caller: &Principal, owner: &Principal)
        -> (r: Result<(), String>)
        requires
            old(self).wf(),
        ensures
            final(self).wf(),
            r is Ok <==> (caller@ == owner@ && old(self).products.m().contains_key(product_id@)),
            r is Ok ==> final(self).products.m() == old(self).products.m().remove(product_id@)
                && final(self).stats.m() == old(self).stats.m().remove(product_id@),
            r is Err ==> final(self).products.m() == old(self).products.m() && final(self).stats.m()
                == old(self).stats.m(),
            final(self).next_product_id == old(self).next_product_id,
    {
        if !caller.eq_p(owner) {
            return Err(String::from_str("Only the owner can delete products"));
        }
        if self.products.remove(product_id).is_none() {
            return Err(String::from_str("Product not found"));
        }
        self.stats.remove(product_id);
        Ok(())
    }

    /// Flips a product's availability: an inactive or out-of-stock
    /// product becomes active, an active one inactive.
    pub fn toggle_product_status(
        &mut self,
        product_id: &String,
        caller: &Principal,
        owner: &Principal,
        now: u64,
    ) -> (r: Result<ProductStatus, String>)
        requires
            old(self).wf(),
        ensures
            final(self).wf(),
            r is Ok <==> (caller@ == owner@ && old(self).products.m().contains_key(product_id@)),
            r matches Ok(st) ==> {
                let prev = old(self).products.m()[product_id@];
                let flipped = (match prev.status {
                    ProductStatus::Active => ProductStatus::Inactive,
                    ProductStatus::Inactive => ProductStatus::Active,
                    ProductStatus::OutOfStock => ProductStatus::Active,
                });
                let v = ProductView { status: flipped, updated_at: now, ..prev };
                &&& st == flipped
                &&& final(self).products.m() == old(self).products.m().insert(product_id@, v)
            },
            r is Err ==> final(self).products.m() == old(self).products.m(),
            final(self).stats == old(self).stats,
            final(self).next_product_id == old(self).next_product_id,
    {
        if !caller.eq_p(owner) {
            return Err(String::from_str("Only the owner can toggle product status"));
        }
        proof {
            self.products.lemma_filed_under_own_key(product_id@);
        }
        match self.products.remove(product_id) {
            Some(mut p) => {
                p.status = match p.status {
                    ProductStatus::Active => ProductStatus::Inactive,
                    ProductStatus::Inactive => ProductStatus::Active,
                    ProductStatus::OutOfStock => ProductStatus::Active,
                };
                p.updated_at = now;
                let new_status = p.status;
                self.products.insert(p);
                Ok(new_status)
            },
            None => Err(String::from_str("Product not found")),
        }
    }

    /// Sets a product's inventory; a zero count sends an active product
    /// out of stock, a positive one brings an out-of-stock product back.
    pub fn update_product_inventory(
        &mut self,
        product_id: &String,
        inventory_count: Option<u32>,
        caller: &Principal,
        owner: &Principal,
        now: u64,
    ) -> (r: Result<(), String>)
        requires
            old(self).wf(),
        ensures
            final(self).wf(),
            r is Ok <==> (caller@ == owner@ && old(self).products.m().contains_key(product_id@)),
            r is Ok ==> {
                let prev = old(self).products.m()[product_id@];
                let st = (match inventory_count {
                    Option::Some(c) => if c == 0 && prev.status == ProductStatus::Active {
                        ProductStatus::OutOfStock
                    } else if c > 0 && prev.status == ProductStatus::OutOfStock {
                        ProductStatus::Active
                    } else {
                        prev.status
                    },
                    Option::None => prev.status,
                });
                let v = ProductView {
                    inventory_count,
                    status: st,
                    updated_at: now,
                    ..prev
                };
                final(self).products.m() == old(self).products.m().insert(product_id@, v)
            },
            r is Err ==> final(self).products.m() == old(self).products.m(),
            final(self).stats == old(self).stats,
            final(self).next_product_id == old(self).next_product_id,
    {
        if !caller.eq_p(owner) {
            return Err(String::from_str("Only the owner can update product inventory"));
        }
        proof {
            self.products.lemma_filed_under_own_key(product_id@);
        }
        match self.products.remove(product_id) {
            Some(mut p) => {
                p.inventory_count = inventory_count;
                p.updated_at = now;
                if let Some(count) = inventory_count {
                    let is_active = match p.status {
                        ProductStatus::Active => true,
                        _ => false,
                    };
                    let is_oos = match p.status {
                        ProductStatus::OutOfStock => true,
                        _ => false,
                    };
                    if count == 0 && is_active {
                        p.status = ProductStatus::OutOfStock;
                    } else if count > 0 && is_oos {
                        p.status = ProductStatus::Active;
                    }
                }
                self.products.insert(p);
                Ok(())
            },
            None => Err(String::from_str("Product not found")),
        }
    }

    pub fn get_product_sales_stats(&self, product_id: &String) -> (r: Option<&ProductSalesStats>)
        requires
            self.wf(),
        ensures
            match r {
                Some(s) => self.stats.m().contains_key(product_id@) && s@ == self.stats.m()[
                    product_id@
                ],
                None => !self.stats.m().contains_key(product_id@),
            },
    {
        self.stats.get(product_id)
    }

    /// Every product's sales figures, for the owner; anyone else sees
    /// nothing.
    pub fn list_all_product_sales_stats(&self, caller: &Principal, owner: &Principal) -> (r: Vec<
        &ProductSalesStats,
    >)
        ensures
            caller@ == owner@ ==> ref_views(r@) == self.stats.sq(),
            caller@ != owner@ ==> r@.len() == 0,
    {
        if !caller.eq_p(owner) {
            return Vec::new();
        }
        self.stats.all()
    }

    /// The categories in use, each exactly once.
    pub fn get_product_categories(&self) -> (r: Vec<String>)
        ensures
            forall|i: int, j: int|
                0 <= i < j < r@.len() ==> (#[trigger] r@[i])@ != (#[trigger] r@[j])@,
            categories_sound(self.products.sq(), r@),
            forall|p: int|
                0 <= p < self.products.sq().len() && (#[trigger] self.products.sq()[p]).category
                    is Some ==> strings_contain(
                    crate::util::strings_view(r@),
                    self.products.sq()[p].category->Some_0,
                ),
    {
        let n = self.products.len();
        let mut r: Vec<String> = Vec::new();
        let mut i: usize = 0;
        while i < n
            invariant
                n == self.products.sq().len(),
                i <= n,
                forall|a: int, b: int|
                    0 <= a < b < r@.len() ==> (#[trigger] r@[a])@ != (#[trigger] r@[b])@,
                categories_sound(self.products.sq(), r@),
                forall|p: int|
                    0 <= p < i && (#[trigger] self.products.sq()[p]).category is Some
                        ==> strings_contain(
                        crate::util::strings_view(r@),
                        self.products.sq()[p].category->Some_0,
                    ),
            decreases n - i,
        {
            let ghost r0 = r@;
            let prod = self.products.nth(i);
            match &prod.category {
                Some(c) => {
                    if !contains_string(&r, c) {
                        r.push(c.clone());
                        proof {
                            assert((r@[r@.len() - 1])@ == c@);
                            assert forall|a: int| 0 <= a < r0.len() implies (#[trigger] r0[a])@
                                != c@ by {
                                assert(crate::util::strings_view(r0)[a] == (r0[a])@);
                            }
                            assert(self.products.sq()[i as int].category == Option::Some(
                                (r@[r@.len() - 1])@,
                            ));
                            assert forall|p: int|
                                0 <= p < i + 1 && (#[trigger] self.products.sq()[p]).category
                                    is Some implies strings_contain(
                                crate::util::strings_view(r@),
                                self.products.sq()[p].category->Some_0,
                            ) by {
                                if p < i {
                                    let t = choose|t: int|
                                        0 <= t < r0.len() && (#[trigger] crate::util::strings_view(
                                            r0,
                                        )[t]) == self.products.sq()[p].category->Some_0;
                                    assert(crate::util::strings_view(r@)[t]
                                        == self.products.sq()[p].category->Some_0);
                                } else {
                                    assert(crate::util::strings_view(r@)[r@.len() - 1]
                                        == self.products.sq()[p].category->Some_0);
                                }
                            }
                        }
                    } else {
                        proof {
                            assert forall|p: int|
                                0 <= p < i + 1 && (#[trigger] self.products.sq()[p]).category
                                    is Some implies strings_contain(
                                crate::util::strings_view(r@),
                                self.products.sq()[p].category->Some_0,
                            ) by {
                                if p == i {
                                    assert(strings_contain(crate::util::strings_view(r@), c@));
                                }
                            }
                        }
                    }
                },
                None => {},
            }
            i += 1;
        }
        r
    }

    /// Records one sale: the product's figures step up and a counted
    /// inventory loses one unit.
    pub fn update_product_sales_stats(&mut self, product_id: &String, sale_amount: u64, now: u64)
        requires
            old(self).wf(),
        ensures
            final(self).wf(),
            final(self).stats.m() == stats_after_sale(old(self).stats.m(), product_id@, sale_amount, now),
            final(self).products.m() == products_after_sale(old(self).products.m(), product_id@, now),
            final(self).next_product_id == old(self).next_product_id,
    {
        proof {
            self.stats.lemma_filed_under_own_key(product_id@);
            self.products.lemma_filed_under_own_key(product_id@);
        }
        match self.stats.remove(product_id) {
            Some(mut s) => {
                s.total_sales = if s.total_sales == u64::MAX {
                    u64::MAX
                } else {
                    s.total_sales + 1
                };
                s.total_revenue = if sale_amount > u64::MAX - s.total_revenue {
                    u64::MAX
                } else {
                    s.total_revenue + sale_amount
                };
                s.units_sold = if s.units_sold == u32::MAX {
                    u32::MAX
                } else {
                    s.units_sold + 1
                };
                s.last_sale_at = Some(now);
                self.stats.insert(s);
            },
            None => {
                proof {
                    assert(self.stats.m() =~= stats_after_sale(
                        old(self).stats.m(),
                        product_id@,
                        sale_amount,
                        now,
                    ));
                }
            },
        }
        let has_counted_inventory = match self.products.get(product_id) {
            Some(p) => match p.inventory_count {
                Some(c) => c > 0,
                None => false,
            },
            None => false,
        };
        if has_counted_inventory {
            match self.products.remove(product_id) {
                Some(mut p) => {
                    match p.inventory_count {
                        Some(c) => {
                            p.inventory_count = Some(c - 1);
                            if c == 1 {
                                p.status = ProductStatus::OutOfStock;
                            }
                            p.updated_at = now;
                            self.products.insert(p);
                        },
                        None => {
                            proof {
                                assert(false);
                            }
                        },
                    }
                },
                None => {
                    proof {
                        assert(false);
                    }
                },
            }
        } else {
            proof {
                assert(self.products.m() =~= products_after_sale(
                    old(self).products.m(),
                    product_id@,
                    now,
                ));
            }
        }
    }

    /// Clears the catalog except the given default product, which also
    /// keeps its sales figures; everything else loses both.
    pub fn admin_clear_all_products(
        &mut self,
        keep_id: &String,
        caller: &Principal,
        owner: &Principal,
    ) -> (r: Result<u32, String>)
        requires
            old(self).wf(),
        ensures
            final(self).wf(),
            r is Ok <==> caller@ == owner@,
            r matches Ok(c) ==> {
                &&& c == count_other_products(old(self).products.sq(), keep_id@) as u32
                &&& (forall|k: Seq<char>|
                    final(self).products.m().contains_key(k) <==> (
                    old(self).products.m().contains_key(k) && k == keep_id@))
                &&& (forall|k: Seq<char>|
                    #[trigger] final(self).products.m().contains_key(k)
                        ==> final(self).products.m()[k] == old(self).products.m()[k])
                &&& (forall|k: Seq<char>|
                    final(self).stats.m().contains_key(k)
                        <==> (old(self).stats.m().contains_key(k) && k == keep_id@))
                &&& (forall|k: Seq<char>|
                    #[trigger] final(self).stats.m().contains_key(k) ==> final(self).stats.m()[k]
                        == old(self).stats.m()[k])
            },
            r is Err ==> final(self).products.m() == old(self).products.m() && final(self).stats.m()
                == old(self).stats.m(),
            final(self).next_product_id == old(self).next_product_id,
    {
        if !caller.eq_p(owner) {
            return Err(String::from_str("Only the owner can clear all products"));
        }
        let mut keys: Vec<String> = Vec::new();
        let mut count: u64 = 0;
        let n = self.products.len();
        let mut i: usize = 0;
        proof {
            assert(self.products.sq().take(0) =~= Seq::<ProductView>::empty());
        }
        while i < n
            invariant
                self == old(self),
                self.wf(),
                n == self.products.sq().len(),
                i <= n,
                count == count_other_products(self.products.sq().take(i as int), keep_id@),
                count <= i,
                forall|t: int|
                    0 <= t < keys@.len() ==> (#[trigger] keys@[t])@ != keep_id@,
                forall|t: int|
                    0 <= t < keys@.len() ==> exists|j: int|
                        0 <= j < i && (#[trigger] keys@[t])@ == self.products.sq()[j].product_id,
                forall|j: int|
                    0 <= j < i && (#[trigger] self.products.sq()[j]).product_id != keep_id@
                        ==> exists|t: int|
                        0 <= t < keys@.len() && (#[trigger] keys@[t])@
                            == self.products.sq()[j].product_id,
            decreases n - i,
        {
            let ghost keys0 = keys@;
            let p = self.products.nth(i);
            proof {
                assert(self.products.sq().take(i + 1).drop_last() =~= self.products.sq().take(
                    i as int,
                ));
                assert(self.products.sq().take(i + 1).last() == self.products.sq()[i as int]);
            }
            if !p.product_id.eq(keep_id) {
                keys.push(p.product_id.clone());
                count = count + 1;
                proof {
                    assert((keys@[keys@.len() - 1])@ == self.products.sq()[i as int].product_id);
                }
            }
            proof {
                assert forall|j: int|
                    0 <= j < i + 1 && (#[trigger] self.products.sq()[j]).product_id
                        != keep_id@ implies exists|t: int|
                    0 <= t < keys@.len() && (#[trigger] keys@[t])@
                        == self.products.sq()[j].product_id by {
                    if j < i {
                        let t = choose|t: int|
                            0 <= t < keys0.len() && (#[trigger] keys0[t])@
                                == self.products.sq()[j].product_id;
                        assert((keys@[t])@ == self.products.sq()[j].product_id);
                    } else {
                        assert((keys@[keys@.len() - 1])@ == self.products.sq()[j].product_id);
                    }
                }
            }
            i += 1;
        }
        proof {
            assert(self.products.sq().take(n as int) =~= self.products.sq());
            let ks = key_set(keys@);
            assert forall|k: Seq<char>| #[trigger] ks.contains(k) implies self.products.m().contains_key(k)
                && k != keep_id@ by {
                let t = choose|t: int| 0 <= t < keys@.len() && (#[trigger] keys@[t])@ == k;
                let j = choose|j: int|
                    0 <= j < n && (#[trigger] keys@[t])@ == self.products.sq()[j].product_id;
                self.products.lemma_nth_present(j);
            }
            assert forall|k: Seq<char>|
                self.products.m().contains_key(k) && k != keep_id@ implies #[trigger] ks.contains(
                k,
            ) by {
                self.products.lemma_key_present(k);
                let j = choose|j: int|
                    0 <= j < self.products.sq().len()
                        && <Product as TableItem>::view_key(#[trigger] self.products.sq()[j]) == k;
                self.products.lemma_nth_present(j);
                assert(self.products.sq()[j].product_id != keep_id@);
            }
        }
        let mut stat_keys: Vec<String> = Vec::new();
        let sn = self.stats.len();
        let mut j: usize = 0;
        while j < sn
            invariant
                self == old(self),
                self.wf(),
                sn == self.stats.sq().len(),
                j <= sn,
                forall|t: int| 0 <= t < stat_keys@.len() ==> (#[trigger] stat_keys@[t])@ != keep_id@,
                forall|t: int|
                    0 <= t < stat_keys@.len() ==> exists|q: int|
                        0 <= q < j && (#[trigger] stat_keys@[t])@ == self.stats.sq()[q].product_id,
                forall|q: int|
                    0 <= q < j && (#[trigger] self.stats.sq()[q]).product_id != keep_id@
                        ==> exists|t: int|
                        0 <= t < stat_keys@.len() && (#[trigger] stat_keys@[t])@
                            == self.stats.sq()[q].product_id,
            decreases sn - j,
        {
            let ghost sk0 = stat_keys@;
            let s = self.stats.nth(j);
            if !s.product_id.eq(keep_id) {
                stat_keys.push(s.product_id.clone());
                proof {
                    assert((stat_keys@[stat_keys@.len() - 1])@ == self.stats.sq()[
                        j as int
                    ].product_id);
                }
            }
            proof {
                assert forall|q: int|
                    0 <= q < j + 1 && (#[trigger] self.stats.sq()[q]).product_id
                        != keep_id@ implies exists|t: int|
                    0 <= t < stat_keys@.len() && (#[trigger] stat_keys@[t])@
                        == self.stats.sq()[q].product_id by {
                    if q < j {
                        let t = choose|t: int|
                            0 <= t < sk0.len() && (#[trigger] sk0[t])@
                                == self.stats.sq()[q].product_id;
                        assert((stat_keys@[t])@ == self.stats.sq()[q].product_id);
                    } else {
                        assert((stat_keys@[stat_keys@.len() - 1])@
                            == self.stats.sq()[q].product_id);
                    }
                }
            }
            j += 1;
        }
        proof {
            let ks = key_set(stat_keys@);
            assert forall|k: Seq<char>| #[trigger] ks.contains(k) implies self.stats.m().contains_key(k)
                && k != keep_id@ by {
                let t = choose|t: int|
                    0 <= t < stat_keys@.len() && (#[trigger] stat_keys@[t])@ == k;
                let q = choose|q: int|
                    0 <= q < sn && (#[trigger] stat_keys@[t])@ == self.stats.sq()[q].product_id;
                self.stats.lemma_nth_present(q);
            }
            assert forall|k: Seq<char>|
                self.stats.m().contains_key(k) && k != keep_id@ implies #[trigger] ks.contains(
                k,
            ) by {
                self.stats.lemma_key_present(k);
                let q = choose|q: int|
                    0 <= q < self.stats.sq().len() && <ProductSalesStats as TableItem>::view_key(
                        #[trigger] self.stats.sq()[q],
                    ) == k;
                self.stats.lemma_nth_present(q);
                assert(self.stats.sq()[q].product_id != keep_id@);
            }
        }
        self.products.drain_keys(&keys);
        self.stats.drain_keys(&stat_keys);
        Ok(#[verifier::truncate] (count as u32))
    }

    /// Total and active product counts, for the owner; anyone else sees
    /// zeros.
    pub fn get_product_stats(&self, caller: &Principal, owner: &Principal) -> (r: (u32, u32))
        ensures
            caller@ == owner@ ==> r.0 == self.products.sq().len() as u32 && r.1 == count_with_status(
                self.products.sq(),
                ProductStatus::Active,
            ) as u32,
            caller@ != owner@ ==> r == (0u32, 0u32),
    {
        if !caller.eq_p(owner) {
            return (0, 0);
        }
        let total = self.products.len();
        let n = self.products.len();
        let mut active: u64 = 0;
        let mut i: usize = 0;
        proof {
            assert(self.products.sq().take(0) =~= Seq::<ProductView>::empty());
        }
        while i < n
            invariant
                n == self.products.sq().len(),
                i <= n,
                active <= i,
                active == count_with_status(
                    self.products.sq().take(i as int),
                    ProductStatus::Active,
                ),
            decreases n - i,
        {
            let p = self.products.nth(i);
            proof {
                assert(self.products.sq().take(i + 1).drop_last() =~= self.products.sq().take(
                    i as int,
                ));
                assert(self.products.sq().take(i + 1).last() == self.products.sq()[i as int]);
            }
            let is_active = match p.status {
                ProductStatus::Active => true,
                _ => false,
            };
            if is_active {
                active = active + 1;
            }
            i += 1;
        }
        proof {
            assert(self.products.sq().take(n as int) =~= self.products.sq());
        }
        (#[verifier::truncate] (total as u32), #[verifier::truncate] (active as u32))
    }
}

/// How many products of `s` are not the one to keep.
pub open spec fn count_other_products(s: Seq<ProductView>, keep_id: Seq<char>) -> int
    decreases s.len(),
{
    if s.len() == 0 {
        0
    } else {
        count_other_products(s.drop_last(), keep_id) + (if s.last().product_id != keep_id {
            1int
        } else {
            0int
        })
    }
}

} // verus!
