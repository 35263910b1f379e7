use vstd::prelude::*;
use vstd::string::StrSliceExecFns;
use vstd::string::StringExecFns;

use crate::principal::{anonymous_text, Principal};

verus! {

/// One token a tenant accepts: its symbol, display data, ledger reference,
/// transfer fee and active flag.
#[derive(Debug)]
pub struct TokenConfig {
    pub symbol: String,
    pub name: String,
    pub decimals: u8,
    pub canister_id: Principal,
    pub fee: u64,
    pub logo: Option<String>,
    pub is_active: bool,
}

pub struct TokenConfigView {
    pub symbol: Seq<char>,
    pub name: Seq<char>,
    pub decimals: u8,
    pub canister_id: Seq<char>,
    pub fee: u64,
    pub logo: Option<Seq<char>>,
    pub is_active: bool,
}

impl View for TokenConfig {
    type V = TokenConfigView;

    open spec fn view(&self) -> TokenConfigView {
        TokenConfigView {
            symbol: self.symbol@,
            name: self.name@,
            decimals: self.decimals,
            canister_id: self.canister_id@,
            fee: self.fee,
            logo: match self.logo {
                Option::Some(l) => Option::Some(l@),
                Option::None => Option::None,
            },
            is_active: self.is_active,
        }
    }
}

impl Clone for TokenConfig {
    fn clone(&self) -> (r: Self)
        ensures
            r@ == self@,
    {
        TokenConfig {
            symbol: self.symbol.clone(),
            name: self.name.clone(),
            decimals: self.decimals,
            canister_id: self.canister_id.clone(),
            fee: self.fee,
            logo: match &self.logo {
                Option::Some(l) => Option::Some(l.clone()),
                Option::None => Option::None,
            },
            is_active: self.is_active,
        }
    }
}

/// The views of a token list.
pub open spec fn tokens_view(s: Seq<TokenConfig>) -> Seq<TokenConfigView> {
    s.map_values(|t: TokenConfig| t@)
}

/// Copies a token list, keeping its contents.
pub fn clone_tokens(v: &Vec<TokenConfig>) -> (r: Vec<TokenConfig>)
    ensures
        tokens_view(r@) == tokens_view(v@),
{
    let mut r: Vec<TokenConfig> = Vec::new();
    let n = v.len();
    let mut i: usize = 0;
    while i < n
        invariant
            n == v@.len(),
            i <= n,
            r@.len() == i,
            forall|j: int| 0 <= j < i ==> #[trigger] r@[j]@ == v@[j]@,
        decreases n - i,
    {
        r.push(v[i].clone());
        i += 1;
    }
    proof {
        assert(tokens_view(r@) =~= tokens_view(v@));
    }
    r
}

/// A token entry passes on its own: non-empty symbol and name,
/// and a ledger reference that is not the anonymous identity.
pub open spec fn token_entry_valid(t: TokenConfigView) -> bool {
    &&& t.symbol.len() > 0
    &&& t.name.len() > 0
    &&& t.canister_id != anonymous_text()
}

/// A tenant's configuration, as submitted to the factory and as held
/// by a provisioned unit.
#[derive(Debug)]
pub struct UserCanisterConfig {
    pub name: String,
    pub description: String,
    pub supported_tokens: Vec<TokenConfig>,
    pub webhook: Option<String>,
    pub merchant_fee: u32,
    pub auto_withdraw: bool,
    pub withdraw_threshold: Option<u64>,
    pub custom_settings: Vec<(String, String)>,
}

pub struct UserCanisterConfigView {
    pub name: Seq<char>,
    pub description: Seq<char>,
    pub supported_tokens: Seq<TokenConfigView>,
    pub webhook: Option<Seq<char>>,
    pub merchant_fee: u32,
    pub auto_withdraw: bool,
    pub withdraw_threshold: Option<u64>,
    pub custom_settings: Seq<(Seq<char>, Seq<char>)>,
}

impl View for UserCanisterConfig {
    type V = UserCanisterConfigView;

    open spec fn view(&self) -> UserCanisterConfigView {
        UserCanisterConfigView {
            name: self.name@,
            description: self.description@,
            supported_tokens: tokens_view(self.supported_tokens@),
            webhook: match self.webhook {
                Option::Some(w) => Option::Some(w@),
                Option::None => Option::None,
            },
            merchant_fee: self.merchant_fee,
            auto_withdraw: self.auto_withdraw,
            withdraw_threshold: self.withdraw_threshold,
            custom_settings: crate::util::pairs_view(self.custom_settings@),
        }
    }
}

impl Clone for UserCanisterConfig {
    fn clone(&self) -> (r: Self)
        ensures
            r@ == self@,
    {
        UserCanisterConfig {
            name: self.name.clone(),
            description: self.description.clone(),
            supported_tokens: clone_tokens(&self.supported_tokens),
            webhook: match &self.webhook {
                Option::Some(w) => Option::Some(w.clone()),
                Option::None => Option::None,
            },
            merchant_fee: self.merchant_fee,
            auto_withdraw: self.auto_withdraw,
            withdraw_threshold: self.withdraw_threshold,
            custom_settings: crate::util::clone_pairs(&self.custom_settings),
        }
    }
}

/// A configuration the factory accepts: name of 1 to 50 characters,
/// description of at most 200, at least one token, every token entry
/// valid, and a merchant fee of at most 1000 basis points.
pub open spec fn config_valid(c: UserCanisterConfigView) -> bool {
    &&& 1 <= c.name.len() <= 50
    &&& c.description.len() <= 200
    &&& c.supported_tokens.len() > 0
    &&& (forall|i: int|
        0 <= i < c.supported_tokens.len() ==> token_entry_valid(#[trigger] c.supported_tokens[i]))
    &&& c.merchant_fee <= 1000
}

/// Accepts exactly the configurations that [`config_valid`] describes.
pub fn validate_canister_config(config: &UserCanisterConfig) -> (r: Result<(), String>)
    ensures
        r is Ok <==> config_valid(config@),
{
    let name_len = config.name.as_str().unicode_len();
    if name_len == 0 || name_len > 50 {
        return Err(String::from_str("Name must be between 1 and 50 characters"));
    }
    if config.description.as_str().unicode_len() > 200 {
        return Err(String::from_str("Description must be less than 200 characters"));
    }
    if config.supported_tokens.len() == 0 {
        return Err(String::from_str("At least one supported token is required"));
    }
    let n = config.supported_tokens.len();
    let mut i: usize = 0;
    while i < n
        invariant
            n == config.supported_tokens@.len(),
            i <= n,
            forall|j: int|
                0 <= j < i ==> token_entry_valid(#[trigger] config@.supported_tokens[j]),
        decreases n - i,
    {
        let token = &config.supported_tokens[i];
        if token.symbol.as_str().unicode_len() == 0 {
            proof {
                assert(!token_entry_valid(config@.supported_tokens[i as int]));
            }
            return Err(String::from_str("Token symbol cannot be empty"));
        }
        if token.name.as_str().unicode_len() == 0 {
            proof {
                assert(!token_entry_valid(config@.supported_tokens[i as int]));
            }
            return Err(String::from_str("Token name cannot be empty"));
        }
        if token.canister_id.is_anonymous() {
            proof {
                assert(!token_entry_valid(config@.supported_tokens[i as int]));
            }
            return Err(String::from_str("Token canister ID cannot be anonymous"));
        }
        i += 1;
    }
    if config.merchant_fee > 1000 {
        return Err(String::from_str("Merchant fee cannot exceed 10%"));
    }
    Ok(())
}

/// The fixed configuration installed on every new unit, whatever the
/// caller submitted: a single default token and a 250 bp merchant fee.
pub fn create_default_user_config() -> (c: UserCanisterConfig)
    ensures
        c@.supported_tokens.len() == 1,
        c@.merchant_fee == 250,
        config_valid(c@),
{
    let default_token = TokenConfig {
        symbol: String::from_str("ckBTC"),
        name: String::from_str("Chain Key Bitcoin"),
        decimals: 8,
        canister_id: Principal::from_text(String::from_str("mxzaz-hqaaa-aaaar-qaada-cai")),
        fee: 10,
        logo: None,
        is_active: true,
    };
    let ghost tv = default_token@;
    let mut tokens: Vec<TokenConfig> = Vec::new();
    tokens.push(default_token);
    let c = UserCanisterConfig {
        name: String::from_str("Default Payment System"),
        description: String::from_str("Default payment system configuration"),
        supported_tokens: tokens,
        webhook: None,
        merchant_fee: 250,
        auto_withdraw: false,
        withdraw_threshold: None,
        custom_settings: Vec::new(),
    };
    proof {
        reveal_strlit("ckBTC");
        reveal_strlit("Chain Key Bitcoin");
        reveal_strlit("mxzaz-hqaaa-aaaar-qaada-cai");
        reveal_strlit("2vxsx-fae");
        reveal_strlit("Default Payment System");
        reveal_strlit("Default payment system configuration");
        assert(c@.supported_tokens.len() == 1);
        assert(c@.supported_tokens[0] == tv);
        assert(tv.symbol.len() > 0);
        assert(tv.name.len() > 0);
        assert(tv.canister_id.len() != anonymous_text().len());
        assert(token_entry_valid(tv));
        assert(c@.custom_settings =~= Seq::<(Seq<char>, Seq<char>)>::empty());
    }
    c
}

/// The first supported token that carries `symbol` and is active, if any.
pub open spec fn find_active_idx(tokens: Seq<TokenConfigView>, symbol: Seq<char>) -> Option<int>
    decreases tokens.len(),
{
    if tokens.len() == 0 {
        Option::<int>::None
    } else if tokens[0].symbol == symbol && tokens[0].is_active {
        Option::Some(0int)
    } else {
        match find_active_idx(tokens.drop_first(), symbol) {
            Option::Some(i) => Option::Some(i + 1),
            Option::None => Option::<int>::None,
        }
    }
}

proof fn lemma_find_active_at(tokens: Seq<TokenConfigView>, symbol: Seq<char>, i: int)
    requires
        0 <= i < tokens.len(),
        forall|j: int|
            0 <= j < i ==> !((#[trigger] tokens[j]).symbol == symbol && tokens[j].is_active),
        tokens[i].symbol == symbol && tokens[i].is_active,
    ensures
        find_active_idx(tokens, symbol) == Some(i),
    decreases i,
{
    if i > 0 {
        lemma_find_active_at(tokens.drop_first(), symbol, i - 1);
    }
}

proof fn lemma_find_active_none(tokens: Seq<TokenConfigView>, symbol: Seq<char>)
    requires
        forall|j: int|
            0 <= j < tokens.len() ==> !((#[trigger] tokens[j]).symbol == symbol
                && tokens[j].is_active),
    ensures
        find_active_idx(tokens, symbol) is None,
    decreases tokens.len(),
{
    if tokens.len() > 0 {
        lemma_find_active_none(tokens.drop_first(), symbol);
    }
}

/// The first supported token carrying `symbol`, active or not, if any.
pub open spec fn find_token_idx(tokens: Seq<TokenConfigView>, symbol: Seq<char>) -> Option<int>
    decreases tokens.len(),
{
    if tokens.len() == 0 {
        Option::<int>::None
    } else if tokens[0].symbol == symbol {
        Option::Some(0int)
    } else {
        match find_token_idx(tokens.drop_first(), symbol) {
            Option::Some(i) => Option::Some(i + 1),
            Option::None => Option::<int>::None,
        }
    }
}

pub proof fn lemma_find_token_at(tokens: Seq<TokenConfigView>, symbol: Seq<char>, i: int)
    requires
        0 <= i < tokens.len(),
        forall|j: int| 0 <= j < i ==> (#[trigger] tokens[j]).symbol != symbol,
        tokens[i].symbol == symbol,
    ensures
        find_token_idx(tokens, symbol) == Some(i),
    decreases i,
{
    if i > 0 {
        lemma_find_token_at(tokens.drop_first(), symbol, i - 1);
    }
}

pub proof fn lemma_find_token_none(tokens: Seq<TokenConfigView>, symbol: Seq<char>)
    requires
        forall|j: int| 0 <= j < tokens.len() ==> (#[trigger] tokens[j]).symbol != symbol,
    ensures
        find_token_idx(tokens, symbol) is None,
    decreases tokens.len(),
{
    if tokens.len() > 0 {
        lemma_find_token_none(tokens.drop_first(), symbol);
    }
}

/// The token list with every entry carrying `symbol` struck out.
pub open spec fn tokens_without(s: Seq<TokenConfigView>, symbol: Seq<char>) -> Seq<TokenConfigView>
    decreases s.len(),
{
    if s.len() == 0 {
        Seq::<TokenConfigView>::empty()
    } else {
        let rest = tokens_without(s.drop_last(), symbol);
        if s.last().symbol == symbol {
            rest
        } else {
            rest.push(s.last())
        }
    }
}

/// An entry collides with `(symbol, canister_id)`: same symbol or same
/// ledger reference.
pub open spec fn token_conflict(
    s: Seq<TokenConfigView>,
    symbol: Seq<char>,
    canister_id: Seq<char>,
) -> bool {
    exists|i: int|
        0 <= i < s.len() && ((#[trigger] s[i]).symbol == symbol || s[i].canister_id == canister_id)
}

/// Whether some supported token carries `symbol`.
pub open spec fn has_token(tokens: Seq<TokenConfigView>, symbol: Seq<char>) -> bool {
    exists|i: int| 0 <= i < tokens.len() && tokens[i].symbol == symbol
}

/// Whether some supported token carries `symbol` and is active.
pub open spec fn has_active_token(tokens: Seq<TokenConfigView>, symbol: Seq<char>) -> bool {
    exists|i: int| 0 <= i < tokens.len() && tokens[i].symbol == symbol && tokens[i].is_active
}

impl UserCanisterConfig {
    /// Looks up the first active supported token carrying `symbol`,
    /// handing back a copy.
    pub fn find_active_token(&self, symbol: &String) -> (r: Option<TokenConfig>)
        ensures
            match r {
                Some(t) => find_active_idx(self@.supported_tokens, symbol@) matches Some(i) && t@
                    == self@.supported_tokens[i],
                None => !has_active_token(self@.supported_tokens, symbol@),
            },
            r is Some <==> has_active_token(self@.supported_tokens, symbol@),
    {
        let n = self.supported_tokens.len();
        let mut i: usize = 0;
        while i < n
            invariant
                n == self.supported_tokens@.len(),
                i <= n,
                forall|j: int|
                    0 <= j < i ==> !((#[trigger] self@.supported_tokens[j]).symbol == symbol@
                        && self@.supported_tokens[j].is_active),
            decreases n - i,
        {
            let t = &self.supported_tokens[i];
            if t.is_active && t.symbol.eq(symbol) {
                proof {
                    assert(self@.supported_tokens[i as int].symbol == symbol@);
                    lemma_find_active_at(self@.supported_tokens, symbol@, i as int);
                }
                return Some(t.clone());
            }
            i += 1;
        }
        proof {
            lemma_find_active_none(self@.supported_tokens, symbol@);
        }
        None
    }

    /// Whether `symbol` names an active supported token.
    pub fn has_active_token_exec(&self, symbol: &String) -> (r: bool)
        ensures
            r == has_active_token(self@.supported_tokens, symbol@),
    {
        self.find_active_token(symbol).is_some()
    }
}

} // verus!
