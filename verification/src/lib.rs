pub mod analytics;
pub mod balances;
pub mod config;
pub mod coupon;
pub mod factory;
pub mod registry;
pub mod settlement;
pub mod subscription;
pub mod modal;
pub mod principal;
pub mod product;
pub mod table;
pub mod tenant;
pub mod util;

use vstd::prelude::*;

verus! {

/// Merchant fees are expressed in basis points; 10000 bp make the whole.
pub open spec fn spec_merchant_fee(amount: u64, fee_bp: u32) -> int {
    amount * fee_bp / 10000
}

/// Fee owed to the platform on a settled amount, rounded down.
pub fn merchant_fee_of(amount: u64, fee_bp: u32) -> (r: u64)
    requires
        fee_bp <= 1000,
    ensures
        r == spec_merchant_fee(amount, fee_bp),
        r <= amount,
{
    proof {
        assert((amount as int) * (fee_bp as int) <= (amount as int) * 1000) by (nonlinear_arith)
            requires
                fee_bp <= 1000,
        ;
        assert((amount as int) * 1000 / 10000 <= amount as int) by (nonlinear_arith);
    }
    (((amount as u128) * (fee_bp as u128)) / 10000) as u64
}

} // verus!
