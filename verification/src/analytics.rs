use vstd::prelude::*;
use vstd::string::StringExecFns;

use crate::product::sat_add64;
use crate::settlement::{PaymentMethod, PaymentTransactionView, TransactionStatusView};
use crate::tenant::TenantState;
use crate::util::{contains_string, strings_contain, strings_view};

verus! {

/// Aggregate payment figures. Success ratios are left to the callers
/// that present them, as the quotient of the two counts.
pub struct PaymentAnalytics {
    pub total_transactions: u64,
    pub completed_transactions: u64,
    pub total_volume: Vec<(String, u64)>,
    pub average_amount: Vec<(String, u64)>,
    pub top_tokens: Vec<String>,
}

/// A transaction that settled.
pub open spec fn is_completed(t: PaymentTransactionView) -> bool {
    t.status == TransactionStatusView::Completed
}

/// How many transactions of `s` settled.
pub open spec fn count_completed(s: Seq<PaymentTransactionView>) -> int
    decreases s.len(),
{
    if s.len() == 0 {
        0
    } else {
        count_completed(s.drop_last()) + (if is_completed(s.last()) {
            1int
        } else {
            0int
        })
    }
}

/// The settled volume of one token, stopped at the machine limit.
pub open spec fn sat_token_volume(s: Seq<PaymentTransactionView>, sym: Seq<char>) -> u64
    decreases s.len(),
{
    if s.len() == 0 {
        0u64
    } else {
        let rest = sat_token_volume(s.drop_last(), sym);
        if is_completed(s.last()) && s.last().token.symbol == sym {
            sat_add64(rest, s.last().amount)
        } else {
            rest
        }
    }
}

/// How many settled transactions of `s` moved one token.
pub open spec fn count_token_txs(s: Seq<PaymentTransactionView>, sym: Seq<char>) -> int
    decreases s.len(),
{
    if s.len() == 0 {
        0
    } else {
        count_token_txs(s.drop_last(), sym) + (if is_completed(s.last()) && s.last().token.symbol
            == sym {
            1int
        } else {
            0int
        })
    }
}

/// How many settled transactions of `s` used one payment method.
pub open spec fn count_method(s: Seq<PaymentTransactionView>, m: PaymentMethod) -> int
    decreases s.len(),
{
    if s.len() == 0 {
        0
    } else {
        count_method(s.drop_last(), m) + (if is_completed(s.last()) && s.last().payment_method
            == m {
            1int
        } else {
            0int
        })
    }
}

/// Some settled transaction of `s` moved token `sym`.
pub open spec fn has_completed_sym(s: Seq<PaymentTransactionView>, sym: Seq<char>) -> bool {
    exists|p: int| 0 <= p < s.len() && is_completed(#[trigger] s[p]) && s[p].token.symbol == sym
}

/// Token `sym` is listed among the aggregates.
pub open spec fn sym_listed(r: Seq<(String, u64, u64)>, sym: Seq<char>) -> bool {
    exists|t: int| 0 <= t < r.len() && (#[trigger] r[t]).0@ == sym
}

proof fn lemma_has_completed_extend(s: Seq<PaymentTransactionView>, sym: Seq<char>, i: int)
    requires
        0 <= i < s.len(),
        has_completed_sym(s.take(i), sym),
    ensures
        has_completed_sym(s.take(i + 1), sym),
{
    let p = choose|p: int|
        0 <= p < s.take(i).len() && is_completed(#[trigger] s.take(i)[p]) && s.take(
            i,
        )[p].token.symbol == sym;
    assert(s.take(i + 1)[p] == s.take(i)[p]);
    assert(is_completed(s.take(i + 1)[p]) && s.take(i + 1)[p].token.symbol == sym);
}

/// Per-token aggregates: each listed value is that token's exact
/// settled volume and settled transaction count.
pub open spec fn agg_exact(s: Seq<PaymentTransactionView>, r: Seq<(String, u64, u64)>) -> bool {
    forall|t: int|
        0 <= t < r.len() ==> (#[trigger] r[t]).1 == sat_token_volume(s, r[t].0@) && r[t].2
            == count_token_txs(s, r[t].0@)
}

/// Every listed token saw some settled transaction.
pub open spec fn agg_sound(s: Seq<PaymentTransactionView>, r: Seq<(String, u64, u64)>) -> bool {
    forall|t: int| 0 <= t < r.len() ==> has_completed_sym(s, (#[trigger] r[t]).0@)
}

/// Every token with a settled transaction is listed.
pub open spec fn agg_complete(s: Seq<PaymentTransactionView>, r: Seq<(String, u64, u64)>) -> bool {
    forall|p: int|
        0 <= p < s.len() && is_completed(#[trigger] s[p]) ==> sym_listed(r, s[p].token.symbol)
}

/// No token is listed twice.
pub open spec fn agg_distinct(r: Seq<(String, u64, u64)>) -> bool {
    forall|a: int, b: int| 0 <= a < b < r.len() ==> (#[trigger] r[a]).0@ != (#[trigger] r[b]).0@
}

proof fn lemma_agg_zero(s: Seq<PaymentTransactionView>, sym: Seq<char>, k: int)
    requires
        0 <= k <= s.len(),
        forall|j: int|
            0 <= j < k ==> !(is_completed(#[trigger] s[j]) && s[j].token.symbol == sym),
    ensures
        sat_token_volume(s.take(k), sym) == 0,
        count_token_txs(s.take(k), sym) == 0,
    decreases k,
{
    if k > 0 {
        lemma_agg_zero(s, sym, k - 1);
        assert(s.take(k).drop_last() =~= s.take(k - 1));
        assert(s.take(k).last() == s[k - 1]);
    } else {
        assert(s.take(0) =~= Seq::<PaymentTransactionView>::empty());
    }
}

proof fn lemma_sound_extend(s: Seq<PaymentTransactionView>, r: Seq<(String, u64, u64)>, i: int)
    requires
        0 <= i < s.len(),
        agg_sound(s.take(i), r),
    ensures
        agg_sound(s.take(i + 1), r),
{
    assert forall|t: int| 0 <= t < r.len() implies has_completed_sym(
        s.take(i + 1),
        (#[trigger] r[t]).0@,
    ) by {
        lemma_has_completed_extend(s, (r[t]).0@, i);
    }
}

proof fn lemma_complete_extend(s: Seq<PaymentTransactionView>, r: Seq<(String, u64, u64)>, i: int)
    requires
        0 <= i < s.len(),
        agg_complete(s.take(i), r),
        is_completed(s[i]) ==> sym_listed(r, s[i].token.symbol),
    ensures
        agg_complete(s.take(i + 1), r),
{
    assert forall|p: int|
        0 <= p < s.take(i + 1).len() && is_completed(#[trigger] s.take(i + 1)[p]) implies
        sym_listed(r, s.take(i + 1)[p].token.symbol) by {
        if p < i {
            assert(s.take(i + 1)[p] == s.take(i)[p]);
            assert(is_completed(s.take(i)[p]));
        } else {
            assert(s.take(i + 1)[p] == s[i]);
        }
    }
}

/// The position of `sym` among the aggregates, if it is there.
fn find_agg_index(r: &Vec<(String, u64, u64)>, sym: &String) -> (idx: Option<usize>)
    ensures
        match idx {
            Some(t) => t < r@.len() && (r@[t as int]).0@ == sym@,
            None => forall|u: int| 0 <= u < r@.len() ==> (#[trigger] r@[u]).0@ != sym@,
        },
{
    let m = r.len();
    let mut t: usize = 0;
    while t < m
        invariant
            m == r@.len(),
            t <= m,
            forall|u: int| 0 <= u < t ==> (#[trigger] r@[u]).0@ != sym@,
        decreases m - t,
    {
        if r[t].0.eq(sym) {
            return Some(t);
        }
        t += 1;
    }
    None
}

impl TenantState {
    /// One pass over the transaction record: for every token with a
    /// settled transaction, its exact volume and count.
    #[verifier::rlimit(60)]
    fn compute_token_aggregates(&self) -> (r: Vec<(String, u64, u64)>)
        ensures
            agg_exact(self.transactions.sq(), r@),
            agg_sound(self.transactions.sq(), r@),
            agg_complete(self.transactions.sq(), r@),
            agg_distinct(r@),
            forall|t: int| 0 <= t < r@.len() ==> (#[trigger] r@[t]).2 >= 1,
    {
        let ghost sq = self.transactions.sq();
        let n = self.transactions.len();
        let mut r: Vec<(String, u64, u64)> = Vec::new();
        let mut i: usize = 0;
        proof {
            assert(sq.take(0) =~= Seq::<PaymentTransactionView>::empty());
        }
        while i < n
            invariant
                sq == self.transactions.sq(),
                n == sq.len(),
                i <= n,
                agg_exact(sq.take(i as int), r@),
                agg_sound(sq.take(i as int), r@),
                agg_complete(sq.take(i as int), r@),
                agg_distinct(r@),
                forall|t: int| 0 <= t < r@.len() ==> 1 <= (#[trigger] r@[t]).2 <= i,
            decreases n - i,
        {
            let ghost r0 = r@;
            let tx = self.transactions.nth(i);
            proof {
                assert(sq.take(i + 1).drop_last() =~= sq.take(i as int));
                assert(sq.take(i + 1).last() == sq[i as int]);
            }
            let completed = match tx.status {
                crate::settlement::TransactionStatus::Completed => true,
                _ => false,
            };
            if completed {
                match find_agg_index(&r, &tx.token.symbol) {
                    Some(found) => {
                        let new_vol = if tx.amount > u64::MAX - r[found].1 {
                            u64::MAX
                        } else {
                            r[found].1 + tx.amount
                        };
                        let new_cnt = r[found].2 + 1;
                        let sym_kept = r[found].0.clone();
                        r[found] = (sym_kept, new_vol, new_cnt);
                        proof {
                            assert((r@[found as int]).0@ == (r0[found as int]).0@);
                            assert forall|u: int| 0 <= u < r@.len() implies (#[trigger] r@[u]).0@
                                == (r0[u]).0@ by {}
                            assert forall|u: int| 0 <= u < r@.len() implies (#[trigger] r@[u]).1
                                == sat_token_volume(sq.take(i + 1), r@[u].0@) && r@[u].2
                                == count_token_txs(sq.take(i + 1), r@[u].0@) by {
                                if u != found {
                                    assert(r@[u] == r0[u]);
                                    assert((r0[u]).0@ != sq[i as int].token.symbol);
                                }
                            }
                            assert forall|t: int| 0 <= t < r@.len() implies has_completed_sym(
                                sq.take(i as int),
                                (#[trigger] r@[t]).0@,
                            ) by {
                                assert((r@[t]).0@ == (r0[t]).0@);
                            }
                            lemma_sound_extend(sq, r@, i as int);
                            assert(sym_listed(r@, sq[i as int].token.symbol)) by {
                                assert((r@[found as int]).0@ == sq[i as int].token.symbol);
                            }
                            assert forall|p: int|
                                0 <= p < sq.take(i as int).len() && is_completed(
                                    #[trigger] sq.take(i as int)[p],
                                ) implies sym_listed(r@, sq.take(i as int)[p].token.symbol) by {
                                assert(sym_listed(r0, sq.take(i as int)[p].token.symbol));
                                let t = choose|t: int|
                                    0 <= t < r0.len() && (#[trigger] r0[t]).0@ == sq.take(
                                        i as int,
                                    )[p].token.symbol;
                                assert((r@[t]).0@ == sq.take(i as int)[p].token.symbol);
                            }
                            lemma_complete_extend(sq, r@, i as int);
                        }
                    },
                    None => {
                        r.push((tx.token.symbol.clone(), tx.amount, 1));
                        proof {
                            let sym = sq[i as int].token.symbol;
                            assert forall|j: int|
                                0 <= j < i implies !(is_completed(#[trigger] sq[j])
                                && sq[j].token.symbol == sym) by {
                                if is_completed(sq[j]) && sq[j].token.symbol == sym {
                                    assert(sq.take(i as int)[j] == sq[j]);
                                    assert(is_completed(sq.take(i as int)[j]));
                                    let t0 = choose|t0: int|
                                        0 <= t0 < r0.len() && (#[trigger] r0[t0]).0@
                                            == sq.take(i as int)[j].token.symbol;
                                    assert(false);
                                }
                            }
                            lemma_agg_zero(sq, sym, i as int);
                            assert((r@[r@.len() - 1]).0@ == sym);
                            assert forall|u: int| 0 <= u < r@.len() implies (#[trigger] r@[u]).1
                                == sat_token_volume(sq.take(i + 1), r@[u].0@) && r@[u].2
                                == count_token_txs(sq.take(i + 1), r@[u].0@) by {
                                if u < r@.len() - 1 {
                                    assert(r@[u] == r0[u]);
                                    assert((r0[u]).0@ != sym);
                                } else {
                                    assert(sat_token_volume(sq.take(i as int), sym) == 0);
                                    assert(count_token_txs(sq.take(i as int), sym) == 0);
                                }
                            }
                            assert forall|t: int| 0 <= t < r@.len() implies has_completed_sym(
                                sq.take(i + 1),
                                (#[trigger] r@[t]).0@,
                            ) by {
                                if t < r@.len() - 1 {
                                    assert(r@[t] == r0[t]);
                                    lemma_has_completed_extend(sq, (r0[t]).0@, i as int);
                                } else {
                                    assert(sq.take(i + 1)[i as int] == sq[i as int]);
                                    assert(is_completed(sq.take(i + 1)[i as int]) && sq.take(
                                        i + 1,
                                    )[i as int].token.symbol == (r@[t]).0@);
                                }
                            }
                            assert(sym_listed(r@, sq[i as int].token.symbol)) by {
                                assert((r@[r@.len() - 1]).0@ == sq[i as int].token.symbol);
                            }
                            assert forall|p: int|
                                0 <= p < sq.take(i as int).len() && is_completed(
                                    #[trigger] sq.take(i as int)[p],
                                ) implies sym_listed(r@, sq.take(i as int)[p].token.symbol) by {
                                assert(sym_listed(r0, sq.take(i as int)[p].token.symbol));
                                let t0 = choose|t0: int|
                                    0 <= t0 < r0.len() && (#[trigger] r0[t0]).0@ == sq.take(
                                        i as int,
                                    )[p].token.symbol;
                                assert((r@[t0]).0@ == sq.take(i as int)[p].token.symbol);
                            }
                            lemma_complete_extend(sq, r@, i as int);
                        }
                    },
                }
            } else {
                proof {
                    assert forall|u: int| 0 <= u < r@.len() implies (#[trigger] r@[u]).1
                        == sat_token_volume(sq.take(i + 1), r@[u].0@) && r@[u].2 == count_token_txs(
                        sq.take(i + 1),
                        r@[u].0@,
                    ) by {}
                    lemma_sound_extend(sq, r@, i as int);
                    assert(!is_completed(sq[i as int]));
                    lemma_complete_extend(sq, r@, i as int);
                }
            }
            i += 1;
        }
        proof {
            assert(sq.take(n as int) =~= sq);
        }
        r
    }

    /// Counts how many transactions settled.
    fn count_completed_txs(&self) -> (c: u64)
        ensures
            c == count_completed(self.transactions.sq()),
    {
        let ghost sq = self.transactions.sq();
        let n = self.transactions.len();
        let mut c: u64 = 0;
        let mut i: usize = 0;
        proof {
            assert(sq.take(0) =~= Seq::<PaymentTransactionView>::empty());
        }
        while i < n
            invariant
                sq == self.transactions.sq(),
                n == sq.len(),
                i <= n,
                c <= i,
                c == count_completed(sq.take(i as int)),
            decreases n - i,
        {
            let tx = self.transactions.nth(i);
            proof {
                assert(sq.take(i + 1).drop_last() =~= sq.take(i as int));
                assert(sq.take(i + 1).last() == sq[i as int]);
            }
            let completed = match tx.status {
                crate::settlement::TransactionStatus::Completed => true,
                _ => false,
            };
            if completed {
                c = c + 1;
            }
            i += 1;
        }
        proof {
            assert(sq.take(n as int) =~= sq);
        }
        c
    }

    /// The headline figures: counts, per-token volumes; averages and
    /// top tokens are left empty here.
    pub fn get_analytics(&self) -> (r: PaymentAnalytics)
        ensures
            r.total_transactions == self.transactions.sq().len(),
            r.completed_transactions == count_completed(self.transactions.sq()),
            volume_pairs_ok(self.transactions.sq(), r.total_volume@),
            r.average_amount@.len() == 0,
            r.top_tokens@.len() == 0,
    {
        let agg = self.compute_token_aggregates();
        let mut total_volume: Vec<(String, u64)> = Vec::new();
        let m = agg.len();
        let mut t: usize = 0;
        while t < m
            invariant
                m == agg@.len(),
                agg_exact(self.transactions.sq(), agg@),
                agg_sound(self.transactions.sq(), agg@),
                agg_complete(self.transactions.sq(), agg@),
                agg_distinct(agg@),
                t <= m,
                total_volume@.len() == t,
                forall|u: int|
                    0 <= u < t ==> (#[trigger] total_volume@[u]).0@ == (agg@[u]).0@ && (
                    total_volume@[u]).1 == (agg@[u]).1,
            decreases m - t,
        {
            total_volume.push((agg[t].0.clone(), agg[t].1));
            t += 1;
        }
        proof {
            lemma_volume_pairs_from_agg(self.transactions.sq(), agg@, total_volume@);
        }
        PaymentAnalytics {
            total_transactions: self.transactions.len() as u64,
            completed_transactions: self.count_completed_txs(),
            total_volume,
            average_amount: Vec::new(),
            top_tokens: Vec::new(),
        }
    }

    /// Full figures: counts, per-token volumes, per-token average
    /// settled amounts, and the leading tokens by volume.
    pub fn get_enhanced_analytics(&self) -> (r: PaymentAnalytics)
        ensures
            r.total_transactions == self.transactions.sq().len(),
            r.completed_transactions == count_completed(self.transactions.sq()),
            volume_pairs_ok(self.transactions.sq(), r.total_volume@),
            average_pairs_ok(self.transactions.sq(), r.average_amount@),
            top_tokens_ok(self.transactions.sq(), r.top_tokens@),
    {
        let agg = self.compute_token_aggregates();
        let ghost sq = self.transactions.sq();
        let m = agg.len();
        let mut total_volume: Vec<(String, u64)> = Vec::new();
        let mut average_amount: Vec<(String, u64)> = Vec::new();
        let mut t: usize = 0;
        while t < m
            invariant
                m == agg@.len(),
                sq == self.transactions.sq(),
                agg_exact(sq, agg@),
                agg_sound(sq, agg@),
                agg_complete(sq, agg@),
                agg_distinct(agg@),
                forall|u: int| 0 <= u < m ==> (#[trigger] agg@[u]).2 >= 1,
                t <= m,
                total_volume@.len() == t,
                average_amount@.len() == t,
                forall|u: int|
                    0 <= u < t ==> (#[trigger] total_volume@[u]).0@ == (agg@[u]).0@ && (
                    total_volume@[u]).1 == (agg@[u]).1,
                forall|u: int|
                    0 <= u < t ==> (#[trigger] average_amount@[u]).0@ == (agg@[u]).0@ && (
                    average_amount@[u]).1 == (agg@[u]).1 / (agg@[u]).2,
            decreases m - t,
        {
            total_volume.push((agg[t].0.clone(), agg[t].1));
            average_amount.push((agg[t].0.clone(), agg[t].1 / agg[t].2));
            t += 1;
        }
        proof {
            lemma_volume_pairs_from_agg(sq, agg@, total_volume@);
            lemma_average_pairs_from_agg(sq, agg@, average_amount@);
        }
        let top_tokens = pick_top_tokens(&agg, Ghost(sq));
        PaymentAnalytics {
            total_transactions: self.transactions.len() as u64,
            completed_transactions: self.count_completed_txs(),
            total_volume,
            average_amount,
            top_tokens,
        }
    }

    /// How many settled transactions used each payment method, listed
    /// in a fixed order, only for methods that were used at all.
    pub fn get_payment_method_analytics(&self) -> (r: Vec<(String, u64)>)
        ensures
            r@.map_values(|p: (String, u64)| (p.0@, p.1)) == method_pairs(self.transactions.sq()),
    {
        let ghost sq = self.transactions.sq();
        let n = self.transactions.len();
        let mut direct: u64 = 0;
        let mut transfer_from: u64 = 0;
        let mut subscription: u64 = 0;
        let mut i: usize = 0;
        proof {
            assert(sq.take(0) =~= Seq::<PaymentTransactionView>::empty());
        }
        while i < n
            invariant
                sq == self.transactions.sq(),
                n == sq.len(),
                i <= n,
                direct <= i && transfer_from <= i && subscription <= i,
                direct == count_method(sq.take(i as int), PaymentMethod::Direct),
                transfer_from == count_method(sq.take(i as int), PaymentMethod::TransferFrom),
                subscription == count_method(sq.take(i as int), PaymentMethod::Subscription),
            decreases n - i,
        {
            let tx = self.transactions.nth(i);
            proof {
                assert(sq.take(i + 1).drop_last() =~= sq.take(i as int));
                assert(sq.take(i + 1).last() == sq[i as int]);
            }
            let completed = match tx.status {
                crate::settlement::TransactionStatus::Completed => true,
                _ => false,
            };
            if completed {
                match tx.payment_method {
                    PaymentMethod::Direct => {
                        direct = direct + 1;
                    },
                    PaymentMethod::TransferFrom => {
                        transfer_from = transfer_from + 1;
                    },
                    PaymentMethod::Subscription => {
                        subscription = subscription + 1;
                    },
                }
            }
            i += 1;
        }
        proof {
            assert(sq.take(n as int) =~= sq);
        }
        let mut r: Vec<(String, u64)> = Vec::new();
        if direct > 0 {
            r.push((String::from_str("Direct"), direct));
        }
        if transfer_from > 0 {
            r.push((String::from_str("TransferFrom"), transfer_from));
        }
        if subscription > 0 {
            r.push((String::from_str("Subscription"), subscription));
        }
        proof {
            assert(r@.map_values(|p: (String, u64)| (p.0@, p.1)) =~= method_pairs(sq));
        }
        r
    }
}

/// The volume pairs a transaction record yields: one entry per token
/// with a settled transaction, each carrying its exact volume.
pub open spec fn volume_pairs_ok(s: Seq<PaymentTransactionView>, r: Seq<(String, u64)>) -> bool {
    &&& (forall|a: int, b: int|
        0 <= a < b < r.len() ==> (#[trigger] r[a]).0@ != (#[trigger] r[b]).0@)
    &&& (forall|t: int|
        0 <= t < r.len() ==> (#[trigger] r[t]).1 == sat_token_volume(s, r[t].0@)
            && has_completed_sym(s, r[t].0@))
    &&& (forall|p: int|
        0 <= p < s.len() && is_completed(#[trigger] s[p]) ==> pair_listed(
            r,
            s[p].token.symbol,
        ))
}

/// Token `sym` is listed among the pairs.
pub open spec fn pair_listed(r: Seq<(String, u64)>, sym: Seq<char>) -> bool {
    exists|t: int| 0 <= t < r.len() && (#[trigger] r[t]).0@ == sym
}

/// The average pairs: volume over count, per listed token.
pub open spec fn average_pairs_ok(s: Seq<PaymentTransactionView>, r: Seq<(String, u64)>) -> bool {
    &&& (forall|a: int, b: int|
        0 <= a < b < r.len() ==> (#[trigger] r[a]).0@ != (#[trigger] r[b]).0@)
    &&& (forall|t: int|
        0 <= t < r.len() ==> (#[trigger] r[t]).1 == (sat_token_volume(s, r[t].0@) as int)
            / count_token_txs(s, r[t].0@))
    &&& (forall|p: int|
        0 <= p < s.len() && is_completed(#[trigger] s[p]) ==> pair_listed(
            r,
            s[p].token.symbol,
        ))
}

/// A leading-token list: distinct settled symbols, at most five, in
/// non-increasing volume order; when fewer than five come back, every
/// settled symbol is there; and no symbol left out beats a listed one.
pub open spec fn top_tokens_ok(s: Seq<PaymentTransactionView>, r: Seq<String>) -> bool {
    &&& (forall|a: int, b: int|
        0 <= a < b < r.len() ==> (#[trigger] r[a])@ != (#[trigger] r[b])@)
    &&& (forall|t: int| 0 <= t < r.len() ==> has_completed_sym(s, (#[trigger] r[t])@))
    &&& r.len() <= 5
    &&& (forall|a: int, b: int|
        0 <= a < b < r.len() ==> sat_token_volume(s, (#[trigger] r[a])@) >= sat_token_volume(
            s,
            (#[trigger] r[b])@,
        ))
    &&& (r.len() < 5 ==> forall|p: int|
        0 <= p < s.len() && is_completed(#[trigger] s[p]) ==> strings_contain(
            strings_view(r),
            s[p].token.symbol,
        ))
    &&& (r.len() > 0 ==> forall|p: int|
        0 <= p < s.len() && is_completed(#[trigger] s[p]) && !strings_contain(
            strings_view(r),
            s[p].token.symbol,
        ) ==> sat_token_volume(s, s[p].token.symbol) <= sat_token_volume(s, r.last()@))
}

/// The per-method entries, in fixed order, skipping unused methods.
pub open spec fn method_pairs(s: Seq<PaymentTransactionView>) -> Seq<(Seq<char>, u64)> {
    let d = count_method(s, PaymentMethod::Direct);
    let f = count_method(s, PaymentMethod::TransferFrom);
    let u = count_method(s, PaymentMethod::Subscription);
    (if d > 0 {
        seq![("Direct"@, d as u64)]
    } else {
        Seq::<(Seq<char>, u64)>::empty()
    }) + (if f > 0 {
        seq![("TransferFrom"@, f as u64)]
    } else {
        Seq::<(Seq<char>, u64)>::empty()
    }) + (if u > 0 {
        seq![("Subscription"@, u as u64)]
    } else {
        Seq::<(Seq<char>, u64)>::empty()
    })
}

#[verifier::rlimit(30)]
proof fn lemma_volume_pairs_from_agg(
    s: Seq<PaymentTransactionView>,
    agg: Seq<(String, u64, u64)>,
    vol: Seq<(String, u64)>,
)
    requires
        agg_exact(s, agg),
        agg_sound(s, agg),
        agg_complete(s, agg),
        agg_distinct(agg),
        vol.len() == agg.len(),
        forall|u: int|
            0 <= u < vol.len() ==> (#[trigger] vol[u]).0@ == (agg[u]).0@ && (vol[u]).1 == (
            agg[u]).1,
    ensures
        volume_pairs_ok(s, vol),
{
    assert forall|t: int| 0 <= t < vol.len() implies (#[trigger] vol[t]).1 == sat_token_volume(
        s,
        vol[t].0@,
    ) && has_completed_sym(s, vol[t].0@) by {
        assert((agg[t]).1 == sat_token_volume(s, (agg[t]).0@));
        assert(has_completed_sym(s, (agg[t]).0@));
    }
    assert forall|p: int|
        0 <= p < s.len() && is_completed(#[trigger] s[p]) implies pair_listed(
        vol,
        s[p].token.symbol,
    ) by {
        assert(sym_listed(agg, s[p].token.symbol));
        let t = choose|t: int|
            0 <= t < agg.len() && (#[trigger] agg[t]).0@ == s[p].token.symbol;
        assert((vol[t]).0@ == s[p].token.symbol);
    }
}

proof fn lemma_average_pairs_from_agg(
    s: Seq<PaymentTransactionView>,
    agg: Seq<(String, u64, u64)>,
    avg: Seq<(String, u64)>,
)
    requires
        agg_exact(s, agg),
        agg_sound(s, agg),
        agg_complete(s, agg),
        agg_distinct(agg),
        avg.len() == agg.len(),
        forall|u: int|
            0 <= u < avg.len() ==> (#[trigger] avg[u]).0@ == (agg[u]).0@ && (avg[u]).1 == (
            agg[u]).1 / (agg[u]).2,
    ensures
        average_pairs_ok(s, avg),
{
    assert forall|t: int| 0 <= t < avg.len() implies (#[trigger] avg[t]).1 == (sat_token_volume(
        s,
        avg[t].0@,
    ) as int) / count_token_txs(s, avg[t].0@) by {
        assert((agg[t]).1 == sat_token_volume(s, (agg[t]).0@));
        assert((agg[t]).2 == count_token_txs(s, (agg[t]).0@));
    }
    assert forall|p: int|
        0 <= p < s.len() && is_completed(#[trigger] s[p]) implies pair_listed(
        avg,
        s[p].token.symbol,
    ) by {
        assert(sym_listed(agg, s[p].token.symbol));
        let t = choose|t: int|
            0 <= t < agg.len() && (#[trigger] agg[t]).0@ == s[p].token.symbol;
        assert((avg[t]).0@ == s[p].token.symbol);
    }
}

/// Picks up to five listed tokens, highest volume first: each round
/// takes the best not yet picked.
#[verifier::rlimit(60)]
fn pick_top_tokens(agg: &Vec<(String, u64, u64)>, Ghost(sq): Ghost<Seq<PaymentTransactionView>>)
    -> (r: Vec<String>)
    requires
        agg_exact(sq, agg@),
        agg_sound(sq, agg@),
        agg_complete(sq, agg@),
        agg_distinct(agg@),
    ensures
        top_tokens_ok(sq, r@),
{
    let mut picked: Vec<String> = Vec::new();
    let mut rounds: usize = 0;
    while rounds < 5
        invariant
            agg_exact(sq, agg@),
            agg_sound(sq, agg@),
            agg_complete(sq, agg@),
            agg_distinct(agg@),
            rounds <= 5,
            picked@.len() <= rounds,
            forall|a: int, b: int|
                0 <= a < b < picked@.len() ==> (#[trigger] picked@[a])@ != (#[trigger] picked@[b])@,
            forall|t: int|
                0 <= t < picked@.len() ==> exists|u: int|
                    0 <= u < agg@.len() && (#[trigger] agg@[u]).0@ == (#[trigger] picked@[t])@,
            forall|a: int, b: int|
                0 <= a < b < picked@.len() ==> sat_token_volume(sq, (#[trigger] picked@[a])@)
                    >= sat_token_volume(sq, (#[trigger] picked@[b])@),
            picked@.len() > 0 ==> forall|u: int|
                0 <= u < agg@.len() && !strings_contain(
                    strings_view(picked@),
                    (#[trigger] agg@[u]).0@,
                ) ==> sat_token_volume(sq, agg@[u].0@) <= sat_token_volume(
                    sq,
                    picked@.last()@,
                ),
            picked@.len() < rounds ==> forall|u: int|
                0 <= u < agg@.len() ==> strings_contain(
                    strings_view(picked@),
                    (#[trigger] agg@[u]).0@,
                ),
        decreases 5 - rounds,
    {
        let ghost picked0 = picked@;
        let m = agg.len();
        let mut u: usize = 0;
        let mut best: Option<usize> = None;
        while u < m
            invariant
                m == agg@.len(),
                u <= m,
                agg_exact(sq, agg@),
                picked@ == picked0,
                match best {
                    Some(b) => b < m && !strings_contain(
                        strings_view(picked@),
                        (agg@[b as int]).0@,
                    ) && (forall|w: int|
                        0 <= w < u ==> strings_contain(
                            strings_view(picked@),
                            (#[trigger] agg@[w]).0@,
                        ) || sat_token_volume(sq, agg@[w].0@) <= sat_token_volume(
                            sq,
                            (agg@[b as int]).0@,
                        )),
                    None => forall|w: int|
                        0 <= w < u ==> strings_contain(
                            strings_view(picked@),
                            (#[trigger] agg@[w]).0@,
                        ),
                },
            decreases m - u,
        {
            if !contains_string(&picked, &agg[u].0) {
                let better = match best {
                    Some(b) => agg[u].1 > agg[b].1,
                    None => true,
                };
                if better {
                    best = Some(u);
                }
            }
            u += 1;
        }
        let best = match best {
            Some(b) => b,
            None => {
                proof {
                    assert forall|w: int| 0 <= w < agg@.len() implies strings_contain(
                        strings_view(picked@),
                        (#[trigger] agg@[w]).0@,
                    ) by {}
                }
                return picked;
            },
        };
        proof {
            if picked@.len() > 0 {
                assert(sat_token_volume(sq, (agg@[best as int]).0@) <= sat_token_volume(
                    sq,
                    picked@.last()@,
                ));
            }
        }
        picked.push(agg[best].0.clone());
        proof {
            assert((picked@[picked@.len() - 1])@ == (agg@[best as int]).0@);
            assert forall|a: int, b: int|
                0 <= a < b < picked@.len() implies (#[trigger] picked@[a])@ != (
            #[trigger] picked@[b])@ by {
                if b < picked@.len() - 1 {
                    assert(picked@[a] == picked0[a]);
                    assert(picked@[b] == picked0[b]);
                } else {
                    assert(picked@[a] == picked0[a]);
                    assert(!strings_contain(strings_view(picked0), (agg@[best as int]).0@));
                    assert(strings_view(picked0)[a] == (picked0[a])@);
                }
            }
            assert forall|w: int|
                0 <= w < agg@.len() && !strings_contain(
                    strings_view(picked@),
                    (#[trigger] agg@[w]).0@,
                ) implies sat_token_volume(sq, agg@[w].0@) <= sat_token_volume(
                sq,
                picked@.last()@,
            ) by {
                assert forall|x: Seq<char>|
                    strings_contain(strings_view(picked0), x) implies strings_contain(
                    strings_view(picked@),
                    x,
                ) by {
                    let a = choose|a: int|
                        0 <= a < picked0.len() && (#[trigger] strings_view(picked0)[a]) == x;
                    assert(strings_view(picked@)[a] == x);
                }
            }
        }
        rounds += 1;
    }
    proof {
        if picked@.len() < 5 {
            assert forall|p: int|
                0 <= p < sq.len() && is_completed(#[trigger] sq[p]) implies strings_contain(
                strings_view(picked@),
                sq[p].token.symbol,
            ) by {
                assert(sym_listed(agg@, sq[p].token.symbol));
                let t = choose|t: int|
                    0 <= t < agg@.len() && (#[trigger] agg@[t]).0@ == sq[p].token.symbol;
            }
        }
        assert forall|p: int|
            0 <= p < sq.len() && is_completed(#[trigger] sq[p]) && !strings_contain(
                strings_view(picked@),
                sq[p].token.symbol,
            ) && picked@.len() > 0 implies sat_token_volume(sq, sq[p].token.symbol)
            <= sat_token_volume(sq, picked@.last()@) by {
            assert(sym_listed(agg@, sq[p].token.symbol));
            let t = choose|t: int|
                0 <= t < agg@.len() && (#[trigger] agg@[t]).0@ == sq[p].token.symbol;
        }
    }
    picked
}

} // verus!
