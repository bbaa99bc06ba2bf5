use vstd::prelude::*;

verus! {

/// The owner-versioned configuration of the ledger: the referral capacity
/// per referrer, the percentage split of each purchase, and the accepted
/// purchase denominations.
#[derive(Clone, Debug)]
pub struct ContractConfig {
    /// Maximum relationships a single referrer may hold before spillover
    /// placement applies.
    pub referral_limit: u8,
    /// Share of each purchase credited to the referrer, in percent.
    pub commission_percentage: u64,
    /// Reserved multi-level commission parameter; the placement algorithm
    /// here is single-level and never reads it.
    pub commission_levels: u8,
    /// Share of each purchase withheld as the bonus remainder, in percent.
    pub bonus_percentage: u64,
    /// The finite set of accepted purchase denominations, in base units.
    pub valid_amounts: Vec<u64>,
}

impl ContractConfig {
    /// A well-formed configuration keeps the two percentage shares within a
    /// whole: their sum never exceeds 100.
    pub open spec fn wf(&self) -> bool {
        self.commission_percentage + self.bonus_percentage <= 100
    }

    /// Whether `amount` is one of the accepted purchase denominations.
    pub open spec fn spec_is_valid_amount(&self, amount: u64) -> bool {
        self.valid_amounts@.contains(amount)
    }

    /// A field-by-field copy of the configuration, equal to `self` field
    /// by field under its contract.
    pub fn duplicate(&self) -> (c: ContractConfig)
        ensures
            c.referral_limit == self.referral_limit,
            c.commission_percentage == self.commission_percentage,
            c.commission_levels == self.commission_levels,
            c.bonus_percentage == self.bonus_percentage,
            c.valid_amounts@ == self.valid_amounts@,
    {
        let mut amounts: Vec<u64> = Vec::new();
        let mut i: usize = 0;
        while i < self.valid_amounts.len()
            invariant
                i <= self.valid_amounts@.len(),
                amounts@ == self.valid_amounts@.take(i as int),
            decreases self.valid_amounts@.len() - i,
        {
            amounts.push(self.valid_amounts[i]);
            proof {
                assert(self.valid_amounts@.take(i + 1) =~= self.valid_amounts@.take(
                    i as int,
                ).push(self.valid_amounts@[i as int]));
            }
            i = i + 1;
        }
        proof {
            assert(self.valid_amounts@.take(self.valid_amounts@.len() as int)
                =~= self.valid_amounts@);
        }
        ContractConfig {
            referral_limit: self.referral_limit,
            commission_percentage: self.commission_percentage,
            commission_levels: self.commission_levels,
            bonus_percentage: self.bonus_percentage,
            valid_amounts: amounts,
        }
    }

    /// Membership test against the configured denomination set.
    pub fn is_valid_amount(&self, amount: u64) -> (r: bool)
        ensures
            r == self.spec_is_valid_amount(amount),
    {
        let mut i: usize = 0;
        while i < self.valid_amounts.len()
            invariant
                i <= self.valid_amounts@.len(),
                forall|j: int| 0 <= j < i ==> self.valid_amounts@[j] != amount,
            decreases self.valid_amounts@.len() - i,
        {
            if self.valid_amounts[i] == amount {
                return true;
            }
            i = i + 1;
        }
        false
    }
}

} // verus!
