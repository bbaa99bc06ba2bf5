use vstd::prelude::*;

use crate::config::ContractConfig;
use crate::errors::CustomError;

verus! {

/// The three destinations of one purchase amount: the referrer's commission,
/// the withheld bonus remainder, and the residual routed to the founder or
/// treasury account.
#[derive(Clone, Copy, PartialEq, Eq, Structural, Debug)]
pub struct FundSplit {
    pub commission: u64,
    pub bonus: u64,
    pub residual: u64,
}

/// The percentage share of `amount` at `pct` percent, rounded down.
pub open spec fn share_of(amount: u64, pct: u64) -> int {
    amount * pct / 100
}

/// Computing `amount * pct` exceeds the 64-bit range, so the checked
/// multiplication inside `split` fails.
pub open spec fn share_overflows(amount: u64, pct: u64) -> bool {
    amount * pct > u64::MAX
}

/// Two floored percentage shares of the same amount never exceed the share
/// at the summed percentage; with the percentages summing to at most 100,
/// they never exceed the amount itself.
pub proof fn lemma_shares_fit(amount: u64, cp: u64, bp: u64)
    requires
        cp + bp <= 100,
    ensures
        share_of(amount, cp) + share_of(amount, bp) <= amount,
        0 <= share_of(amount, cp),
        0 <= share_of(amount, bp),
{
    let x = amount * cp;
    let y = amount * bp;
    assert(x + y <= 100 * amount) by (nonlinear_arith)
        requires
            cp + bp <= 100,
            x == amount * cp,
            y == amount * bp,
            0 <= amount,
    ;
    assert(x / 100 + y / 100 <= amount);
}

/// Splits a purchase amount into commission, bonus, and residual per the
/// configured percentages, with floor division; the residual absorbs all
/// rounding remainder, so the three parts always sum back to the amount.
/// Fails with `ArithmeticError` exactly when a checked multiplication
/// overflows; no other input is rejected.
pub fn split(amount: u64, config: &ContractConfig) -> (r: Result<FundSplit, CustomError>)
    requires
        config.wf(),
        config.spec_is_valid_amount(amount),
    ensures
        match r {
            Ok(s) => {
                &&& !share_overflows(amount, config.commission_percentage)
                &&& !share_overflows(amount, config.bonus_percentage)
                &&& s.commission == share_of(amount, config.commission_percentage)
                &&& s.bonus == share_of(amount, config.bonus_percentage)
                &&& s.commission + s.bonus <= amount
                &&& s.residual == amount - s.commission - s.bonus
                &&& s.commission + s.bonus + s.residual == amount
            },
            Err(e) => {
                &&& e == CustomError::ArithmeticError
                &&& (share_overflows(amount, config.commission_percentage)
                    || share_overflows(amount, config.bonus_percentage))
            },
        },
{
    let scaled_commission = match amount.checked_mul(config.commission_percentage) {
        Some(x) => x,
        None => {
            return Err(CustomError::ArithmeticError);
        },
    };
    let scaled_bonus = match amount.checked_mul(config.bonus_percentage) {
        Some(x) => x,
        None => {
            return Err(CustomError::ArithmeticError);
        },
    };
    let commission = scaled_commission / 100;
    let bonus = scaled_bonus / 100;
    proof {
        lemma_shares_fit(amount, config.commission_percentage, config.bonus_percentage);
    }
    let residual = amount - commission - bonus;
    Ok(FundSplit { commission, bonus, residual })
}

} // verus!
