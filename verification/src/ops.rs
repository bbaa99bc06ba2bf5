use vstd::prelude::*;

use crate::config::ContractConfig;
use crate::errors::CustomError;
use crate::events::BlacklistAction;
use crate::events::BlacklistEvent;
use crate::events::CommissionConfigEvent;
use crate::events::ConfigUpdateEvent;
use crate::events::InitializeEvent;
use crate::events::PauseEvent;
use crate::events::GiftCardPurchaseEvent;
use crate::events::PackageGrantedEvent;
use crate::events::PackageUpgradeEvent;
use crate::placement::find_spillover_position;
use crate::placement::resolve_spec;
use crate::principal::Principal;
use crate::split::share_of;
use crate::split::share_overflows;
use crate::split::split;
use crate::state::find_user_index;
use crate::state::spec_earnings_of;
use crate::state::spec_find_user;
use crate::state::spec_has_relationship;
use crate::state::spec_package_of;
use crate::state::ReferralRelationship;
use crate::state::SolBox;
use crate::state::User;

verus! {

/// The precondition cascade of `upgrade_package`, in the order the checks
/// run: the first violated condition names the error; `None` means the
/// upgrade is owed.
pub open spec fn spec_upgrade_error(s: SolBox, user: Principal, new_package: u64) -> Option<
    CustomError,
> {
    if s.paused {
        Some(CustomError::ContractPaused)
    } else if s.blacklisted_users@.contains(user) {
        Some(CustomError::UserBlacklisted)
    } else if !s.config.spec_is_valid_amount(new_package) {
        Some(CustomError::InvalidAmount)
    } else if new_package <= spec_package_of(s.users@, user) {
        Some(CustomError::InvalidUpgrade)
    } else {
        None
    }
}

/// The precondition cascade of `buy_gift_card`, in the order the checks
/// run: the first violated condition names the error; `None` means the
/// purchase is owed. Every arithmetic step is overflow-checked.
pub open spec fn spec_buy_error(
    s: SolBox,
    user: Principal,
    referrer: Principal,
    amount: u64,
) -> Option<CustomError> {
    let cp = s.config.commission_percentage;
    let bp = s.config.bonus_percentage;
    if s.paused {
        Some(CustomError::ContractPaused)
    } else if s.blacklisted_users@.contains(user) {
        Some(CustomError::UserBlacklisted)
    } else if !s.config.spec_is_valid_amount(amount) {
        Some(CustomError::InvalidAmount)
    } else if user == referrer {
        Some(CustomError::SelfReferralNotAllowed)
    } else if share_overflows(amount, cp) || share_overflows(amount, bp) {
        Some(CustomError::ArithmeticError)
    } else {
        match resolve_spec(s.referral_relationships@, referrer, s.config.referral_limit) {
            None => Some(CustomError::NoSpilloverAvailable),
            Some(fr) => {
                if s.total_sold + amount > u64::MAX {
                    Some(CustomError::ArithmeticError)
                } else if s.total_commission_distributed + share_of(amount, cp) > u64::MAX {
                    Some(CustomError::ArithmeticError)
                } else if s.referral_count + 1 > u64::MAX {
                    Some(CustomError::ArithmeticError)
                } else if spec_earnings_of(s.users@, fr) + share_of(amount, cp) > u64::MAX {
                    Some(CustomError::ArithmeticError)
                } else {
                    None
                }
            },
        }
    }
}

/// The fields no transition but `initialize` ever writes.
pub open spec fn spec_identities_unchanged(pre: SolBox, post: SolBox) -> bool {
    &&& post.owner == pre.owner
    &&& post.founder_wallet == pre.founder_wallet
}

/// The aggregate purchase counters are untouched.
pub open spec fn spec_counters_unchanged(pre: SolBox, post: SolBox) -> bool {
    &&& post.total_sold == pre.total_sold
    &&& post.total_commission_distributed == pre.total_commission_distributed
    &&& post.referral_count == pre.referral_count
}

/// The three record collections are untouched.
pub open spec fn spec_records_unchanged(pre: SolBox, post: SolBox) -> bool {
    &&& post.blacklisted_users@ == pre.blacklisted_users@
    &&& post.referral_relationships@ == pre.referral_relationships@
    &&& post.users@ == pre.users@
}

/// The whole configuration is untouched.
pub open spec fn spec_config_unchanged(pre: SolBox, post: SolBox) -> bool {
    &&& post.config.referral_limit == pre.config.referral_limit
    &&& post.config.commission_percentage == pre.config.commission_percentage
    &&& post.config.commission_levels == pre.config.commission_levels
    &&& post.config.bonus_percentage == pre.config.bonus_percentage
    &&& post.config.valid_amounts@ == pre.config.valid_amounts@
}

impl SolBox {
    /// Creates the ledger: sets the owner and founder wallet once, zeroes
    /// every counter, installs the configuration, and starts with empty
    /// blacklist, relationship history, and user records. The environment
    /// guarantees this runs exactly once per ledger.
    pub fn initialize(
        owner: Principal,
        founder_wallet: Principal,
        config: ContractConfig,
        now: i64,
    ) -> (r: (SolBox, InitializeEvent))
        requires
            config.wf(),
        ensures
            r.0.owner == owner,
            r.0.founder_wallet == founder_wallet,
            !r.0.paused,
            r.0.total_sold == 0,
            r.0.total_commission_distributed == 0,
            r.0.referral_count == 0,
            r.0.config == config,
            r.0.blacklisted_users@.len() == 0,
            r.0.referral_relationships@.len() == 0,
            r.0.users@.len() == 0,
            r.0.wf(),
            r.1 == (InitializeEvent { owner, founder_wallet, timestamp: now }),
    {
        let solbox = SolBox {
            owner,
            founder_wallet,
            paused: false,
            total_sold: 0,
            total_commission_distributed: 0,
            referral_count: 0,
            config,
            blacklisted_users: Vec::new(),
            referral_relationships: Vec::new(),
            users: Vec::new(),
        };
        let event = InitializeEvent { owner, founder_wallet, timestamp: now };
        (solbox, event)
    }

    /// Replaces the whole configuration. Owner-only, and blocked while the
    /// ledger is paused: governance of a paused ledger is limited to
    /// unpausing it.
    pub fn update_config(
        &mut self,
        admin: Principal,
        new_config: ContractConfig,
        now: i64,
    ) -> (r: Result<ConfigUpdateEvent, CustomError>)
        requires
            old(self).wf(),
            new_config.wf(),
        ensures
            final(self).wf(),
            match r {
                Ok(ev) => {
                    &&& admin == old(self).owner
                    &&& !old(self).paused
                    &&& final(self).config == new_config
                    &&& spec_identities_unchanged(*old(self), *final(self))
                    &&& final(self).paused == old(self).paused
                    &&& spec_counters_unchanged(*old(self), *final(self))
                    &&& spec_records_unchanged(*old(self), *final(self))
                    &&& ev.admin == admin
                    &&& ev.new_config.referral_limit == new_config.referral_limit
                    &&& ev.new_config.commission_percentage == new_config.commission_percentage
                    &&& ev.new_config.commission_levels == new_config.commission_levels
                    &&& ev.new_config.bonus_percentage == new_config.bonus_percentage
                    &&& ev.new_config.valid_amounts@ == new_config.valid_amounts@
                    &&& ev.timestamp == now
                },
                Err(e) => {
                    &&& *final(self) == *old(self)
                    &&& (admin != old(self).owner || old(self).paused)
                    &&& e == (if admin != old(self).owner {
                        CustomError::Unauthorized
                    } else {
                        CustomError::ContractPaused
                    })
                },
            },
    {
        if admin != self.owner {
            return Err(CustomError::Unauthorized);
        }
        if self.paused {
            return Err(CustomError::ContractPaused);
        }
        let event = ConfigUpdateEvent { admin, new_config: new_config.duplicate(), timestamp: now };
        self.config = new_config;
        Ok(event)
    }

    /// Flips the pause flag. Owner-only; allowed in either state, since
    /// this is the only way back out of `paused`.
    pub fn toggle_pause(&mut self, admin: Principal, now: i64) -> (r: Result<
        PauseEvent,
        CustomError,
    >)
        requires
            old(self).wf(),
        ensures
            final(self).wf(),
            match r {
                Ok(ev) => {
                    &&& admin == old(self).owner
                    &&& final(self).paused == !old(self).paused
                    &&& spec_identities_unchanged(*old(self), *final(self))
                    &&& spec_counters_unchanged(*old(self), *final(self))
                    &&& spec_records_unchanged(*old(self), *final(self))
                    &&& spec_config_unchanged(*old(self), *final(self))
                    &&& ev == (PauseEvent { admin, paused: !old(self).paused, timestamp: now })
                },
                Err(e) => {
                    &&& *final(self) == *old(self)
                    &&& admin != old(self).owner
                    &&& e == CustomError::Unauthorized
                },
            },
    {
        if admin != self.owner {
            return Err(CustomError::Unauthorized);
        }
        self.paused = !self.paused;
        Ok(PauseEvent { admin, paused: self.paused, timestamp: now })
    }

    /// Adjusts the commission percentage and the reserved level count in
    /// place. Owner-only, allowed while paused: pause stops user-facing
    /// fund movement, not governance. The new percentage must keep the
    /// configured split within a whole.
    pub fn update_commission_config(
        &mut self,
        admin: Principal,
        new_percentage: u64,
        new_levels: u8,
        now: i64,
    ) -> (r: Result<CommissionConfigEvent, CustomError>)
        requires
            old(self).wf(),
            new_percentage + old(self).config.bonus_percentage <= 100,
        ensures
            final(self).wf(),
            match r {
                Ok(ev) => {
                    &&& admin == old(self).owner
                    &&& final(self).config.commission_percentage == new_percentage
                    &&& final(self).config.commission_levels == new_levels
                    &&& final(self).config.referral_limit == old(self).config.referral_limit
                    &&& final(self).config.bonus_percentage == old(self).config.bonus_percentage
                    &&& final(self).config.valid_amounts@ == old(self).config.valid_amounts@
                    &&& final(self).paused == old(self).paused
                    &&& spec_identities_unchanged(*old(self), *final(self))
                    &&& spec_counters_unchanged(*old(self), *final(self))
                    &&& spec_records_unchanged(*old(self), *final(self))
                    &&& ev == (CommissionConfigEvent { admin, new_percentage, new_levels, timestamp: now })
                },
                Err(e) => {
                    &&& *final(self) == *old(self)
                    &&& admin != old(self).owner
                    &&& e == CustomError::Unauthorized
                },
            },
    {
        if admin != self.owner {
            return Err(CustomError::Unauthorized);
        }
        self.config.commission_percentage = new_percentage;
        self.config.commission_levels = new_levels;
        Ok(CommissionConfigEvent { admin, new_percentage, new_levels, timestamp: now })
    }

    /// Inserts `user` into the blacklist if absent; the insert is
    /// idempotent and the event is emitted either way. Owner-only, allowed
    /// while paused.
    pub fn add_to_blacklist(&mut self, admin: Principal, user: Principal, now: i64) -> (r: Result<
        BlacklistEvent,
        CustomError,
    >)
        requires
            old(self).wf(),
        ensures
            final(self).wf(),
            match r {
                Ok(ev) => {
                    &&& admin == old(self).owner
                    &&& final(self).blacklisted_users@ == (if old(self).blacklisted_users@.contains(
                        user,
                    ) {
                        old(self).blacklisted_users@
                    } else {
                        old(self).blacklisted_users@.push(user)
                    })
                    &&& final(self).blacklisted_users@.contains(user)
                    &&& spec_identities_unchanged(*old(self), *final(self))
                    &&& final(self).paused == old(self).paused
                    &&& spec_counters_unchanged(*old(self), *final(self))
                    &&& spec_config_unchanged(*old(self), *final(self))
                    &&& final(self).referral_relationships@ == old(self).referral_relationships@
                    &&& final(self).users@ == old(self).users@
                    &&& ev == (BlacklistEvent {
                        admin,
                        user,
                        action: BlacklistAction::Add,
                        timestamp: now,
                    })
                },
                Err(e) => {
                    &&& *final(self) == *old(self)
                    &&& admin != old(self).owner
                    &&& e == CustomError::Unauthorized
                },
            },
    {
        if admin != self.owner {
            return Err(CustomError::Unauthorized);
        }
        if !self.is_blacklisted(user) {
            self.blacklisted_users.push(user);
            proof {
                let pre = old(self).blacklisted_users@;
                let post = self.blacklisted_users@;
                assert(post.last() == user);
                assert(post.contains(user));
                assert forall|i: int, j: int| 0 <= i < j < post.len() implies post[i] != post[j] by {
                    if j < pre.len() {
                        assert(post[i] == pre[i]);
                        assert(post[j] == pre[j]);
                    } else {
                        assert(post[j] == user);
                        assert(post[i] == pre[i]);
                        if pre[i] == user {
                            assert(pre.contains(user));
                        }
                    }
                }
            }
        }
        Ok(BlacklistEvent { admin, user, action: BlacklistAction::Add, timestamp: now })
    }

    /// Removes `user` from the blacklist if present; the removal is
    /// idempotent and the event is emitted either way. Owner-only, allowed
    /// while paused.
    pub fn remove_from_blacklist(
        &mut self,
        admin: Principal,
        user: Principal,
        now: i64,
    ) -> (r: Result<BlacklistEvent, CustomError>)
        requires
            old(self).wf(),
        ensures
            final(self).wf(),
            match r {
                Ok(ev) => {
                    &&& admin == old(self).owner
                    &&& !final(self).blacklisted_users@.contains(user)
                    &&& forall|q: Principal|
                        q != user ==> (final(self).blacklisted_users@.contains(q)
                            <==> old(self).blacklisted_users@.contains(q))
                    &&& (old(self).blacklisted_users@.contains(user) ==> exists|i: int|
                        0 <= i < old(self).blacklisted_users@.len()
                            && old(self).blacklisted_users@[i] == user
                            && final(self).blacklisted_users@
                                == old(self).blacklisted_users@.remove(i))
                    &&& (!old(self).blacklisted_users@.contains(user)
                        ==> final(self).blacklisted_users@ == old(self).blacklisted_users@)
                    &&& spec_identities_unchanged(*old(self), *final(self))
                    &&& final(self).paused == old(self).paused
                    &&& spec_counters_unchanged(*old(self), *final(self))
                    &&& spec_config_unchanged(*old(self), *final(self))
                    &&& final(self).referral_relationships@ == old(self).referral_relationships@
                    &&& final(self).users@ == old(self).users@
                    &&& ev == (BlacklistEvent {
                        admin,
                        user,
                        action: BlacklistAction::Remove,
                        timestamp: now,
                    })
                },
                Err(e) => {
                    &&& *final(self) == *old(self)
                    &&& admin != old(self).owner
                    &&& e == CustomError::Unauthorized
                },
            },
    {
        if admin != self.owner {
            return Err(CustomError::Unauthorized);
        }
        let mut i: usize = 0;
        let mut found: Option<usize> = None;
        while i < self.blacklisted_users.len() && found.is_none()
            invariant
                i <= self.blacklisted_users@.len(),
                match found {
                    Some(k) => k < i && self.blacklisted_users@[k as int] == user,
                    None => forall|j: int| 0 <= j < i ==> self.blacklisted_users@[j] != user,
                },
            decreases self.blacklisted_users@.len() - i,
        {
            if self.blacklisted_users[i] == user {
                found = Some(i);
            }
            i = i + 1;
        }
        match found {
            Some(k) => {
                self.blacklisted_users.remove(k);
                proof {
                    let pre = old(self).blacklisted_users@;
                    let post = self.blacklisted_users@;
                    assert(pre[k as int] == user);
                    assert forall|j: int| 0 <= j < post.len() implies post[j] != user by {
                        if j < k {
                            assert(post[j] == pre[j]);
                        } else {
                            assert(post[j] == pre[j + 1]);
                        }
                    }
                    if post.contains(user) {
                        let j = choose|j: int| 0 <= j < post.len() && post[j] == user;
                        assert(post[j] != user);
                    }
                    assert forall|q: Principal|
                        q != user implies (post.contains(q) <==> pre.contains(q)) by {
                        if post.contains(q) {
                            let j = choose|j: int| 0 <= j < post.len() && post[j] == q;
                            if j < k {
                                assert(pre[j] == q);
                            } else {
                                assert(pre[j + 1] == q);
                            }
                            assert(pre.contains(q));
                        }
                        if pre.contains(q) {
                            let m = choose|m: int| 0 <= m < pre.len() && pre[m] == q;
                            if m < k {
                                assert(post[m] == q);
                            } else {
                                assert(post[m - 1] == q);
                            }
                            assert(post.contains(q));
                        }
                    }
                    assert forall|a: int, b: int|
                        0 <= a < b < post.len() implies post[a] != post[b] by {
                        let a0 = if a < k {
                            a
                        } else {
                            a + 1
                        };
                        let b0 = if b < k {
                            b
                        } else {
                            b + 1
                        };
                        assert(post[a] == pre[a0]);
                        assert(post[b] == pre[b0]);
                    }
                    assert(pre.contains(user)) by {
                        assert(pre[k as int] == user);
                    }
                }
            },
            None => {
                proof {
                    let pre = self.blacklisted_users@;
                    if pre.contains(user) {
                        let j = choose|j: int| 0 <= j < pre.len() && pre[j] == user;
                        assert(pre[j] != user);
                    }
                }
            },
        }
        Ok(BlacklistEvent { admin, user, action: BlacklistAction::Remove, timestamp: now })
    }

    /// Provisions `package` for `user` directly, bypassing payment — a
    /// manual or compensatory grant. Owner-only; the package must be one of
    /// the configured denominations. The user's record is created on first
    /// grant; recorded earnings are untouched.
    pub fn grant_package(
        &mut self,
        admin: Principal,
        user: Principal,
        package: u64,
        now: i64,
    ) -> (r: Result<PackageGrantedEvent, CustomError>)
        requires
            old(self).wf(),
        ensures
            final(self).wf(),
            match r {
                Ok(ev) => {
                    &&& admin == old(self).owner
                    &&& old(self).config.spec_is_valid_amount(package)
                    &&& spec_find_user(final(self).users@, user) == Some(
                        User {
                            key: user,
                            current_package: package,
                            total_earnings: spec_earnings_of(old(self).users@, user),
                        },
                    )
                    &&& forall|q: Principal|
                        q != user ==> spec_find_user(final(self).users@, q) == spec_find_user(
                            old(self).users@,
                            q,
                        )
                    &&& spec_identities_unchanged(*old(self), *final(self))
                    &&& final(self).paused == old(self).paused
                    &&& spec_counters_unchanged(*old(self), *final(self))
                    &&& spec_config_unchanged(*old(self), *final(self))
                    &&& final(self).blacklisted_users@ == old(self).blacklisted_users@
                    &&& final(self).referral_relationships@ == old(self).referral_relationships@
                    &&& ev == (PackageGrantedEvent { admin, user, package, timestamp: now })
                },
                Err(e) => {
                    &&& *final(self) == *old(self)
                    &&& (admin != old(self).owner || !old(self).config.spec_is_valid_amount(
                        package,
                    ))
                    &&& e == (if admin != old(self).owner {
                        CustomError::Unauthorized
                    } else {
                        CustomError::InvalidAmount
                    })
                },
            },
    {
        if admin != self.owner {
            return Err(CustomError::Unauthorized);
        }
        if !self.config.is_valid_amount(package) {
            return Err(CustomError::InvalidAmount);
        }
        set_user_package(&mut self.users, user, package);
        Ok(PackageGrantedEvent { admin, user, package, timestamp: now })
    }

    /// Moves `user` to a strictly higher package, paying the difference:
    /// requires an active ledger, a non-blacklisted user, and a configured
    /// denomination strictly above the current package. The event's
    /// `difference` is the amount the environment must transfer from the
    /// user to the treasury; recorded earnings are untouched. A user
    /// without a record upgrades from package zero.
    pub fn upgrade_package(&mut self, user: Principal, new_package: u64, now: i64) -> (r: Result<
        PackageUpgradeEvent,
        CustomError,
    >)
        requires
            old(self).wf(),
        ensures
            final(self).wf(),
            match r {
                Ok(ev) => {
                    &&& spec_upgrade_error(*old(self), user, new_package) is None
                    &&& spec_find_user(final(self).users@, user) == Some(
                        User {
                            key: user,
                            current_package: new_package,
                            total_earnings: spec_earnings_of(old(self).users@, user),
                        },
                    )
                    &&& forall|q: Principal|
                        q != user ==> spec_find_user(final(self).users@, q) == spec_find_user(
                            old(self).users@,
                            q,
                        )
                    &&& spec_identities_unchanged(*old(self), *final(self))
                    &&& final(self).paused == old(self).paused
                    &&& spec_counters_unchanged(*old(self), *final(self))
                    &&& spec_config_unchanged(*old(self), *final(self))
                    &&& final(self).blacklisted_users@ == old(self).blacklisted_users@
                    &&& final(self).referral_relationships@ == old(self).referral_relationships@
                    &&& ev == (PackageUpgradeEvent {
                        user,
                        old_package: spec_package_of(old(self).users@, user),
                        new_package,
                        difference: (new_package - spec_package_of(old(self).users@, user)) as u64,
                        timestamp: now,
                    })
                },
                Err(e) => {
                    &&& *final(self) == *old(self)
                    &&& spec_upgrade_error(*old(self), user, new_package) == Some(e)
                },
            },
    {
        if self.paused {
            return Err(CustomError::ContractPaused);
        }
        if self.is_blacklisted(user) {
            return Err(CustomError::UserBlacklisted);
        }
        if !self.config.is_valid_amount(new_package) {
            return Err(CustomError::InvalidAmount);
        }
        let current = self.package_of(user);
        if new_package <= current {
            return Err(CustomError::InvalidUpgrade);
        }
        let difference = new_package - current;
        set_user_package(&mut self.users, user, new_package);
        Ok(PackageUpgradeEvent {
            user,
            old_package: current,
            new_package,
            difference,
            timestamp: now,
        })
    }

    /// Processes a purchase: validates the caller and the amount, splits
    /// the payment, resolves the credited referrer (spilling over when the
    /// requested one is saturated), appends the relationship, bumps the
    /// aggregate counters, and credits the resolved referrer's earnings —
    /// all checks before any mutation, so a rejected purchase leaves the
    /// state untouched. The event names the resolved referrer and the two
    /// transfers the environment must perform: `commission` to the
    /// referrer and `founder_share` to the founder wallet; the bonus share
    /// stays withheld. A purchase establishes the buyer's one referral
    /// relationship, so the buyer must not appear in the history yet.
    pub fn buy_gift_card(
        &mut self,
        user: Principal,
        referrer: Principal,
        amount: u64,
        now: i64,
    ) -> (r: Result<GiftCardPurchaseEvent, CustomError>)
        requires
            old(self).wf(),
            !spec_has_relationship(old(self).referral_relationships@, user),
        ensures
            final(self).wf(),
            old(self).total_sold <= final(self).total_sold,
            old(self).total_commission_distributed
                <= final(self).total_commission_distributed,
            match r {
                Ok(ev) => ({
                    let s0 = *old(self);
                    let commission = share_of(amount, s0.config.commission_percentage) as u64;
                    let bonus = share_of(amount, s0.config.bonus_percentage) as u64;
                    let founder_share = (amount - commission - bonus) as u64;
                    &&& spec_buy_error(s0, user, referrer, amount) is None
                    &&& match resolve_spec(
                        s0.referral_relationships@,
                        referrer,
                        s0.config.referral_limit,
                    ) {
                        Some(fr) => {
                            &&& final(self).total_sold == s0.total_sold + amount
                            &&& final(self).total_commission_distributed
                                == s0.total_commission_distributed + commission
                            &&& final(self).referral_count == s0.referral_count + 1
                            &&& final(self).referral_relationships@
                                == s0.referral_relationships@.push(
                                ReferralRelationship { user, referrer: fr, timestamp: now },
                            )
                            &&& spec_find_user(final(self).users@, fr) == Some(
                                User {
                                    key: fr,
                                    current_package: spec_package_of(s0.users@, fr),
                                    total_earnings: (spec_earnings_of(s0.users@, fr)
                                        + commission) as u64,
                                },
                            )
                            &&& forall|q: Principal|
                                q != fr ==> spec_find_user(final(self).users@, q)
                                    == spec_find_user(s0.users@, q)
                            &&& spec_identities_unchanged(s0, *final(self))
                            &&& final(self).paused == s0.paused
                            &&& spec_config_unchanged(s0, *final(self))
                            &&& final(self).blacklisted_users@ == s0.blacklisted_users@
                            &&& ev == (GiftCardPurchaseEvent {
                                user,
                                referrer: fr,
                                amount,
                                commission,
                                founder_share,
                                timestamp: now,
                            })
                        },
                        None => false,
                    }
                }),
                Err(e) => {
                    &&& *final(self) == *old(self)
                    &&& spec_buy_error(*old(self), user, referrer, amount) == Some(e)
                },
            },
    {
        if self.paused {
            return Err(CustomError::ContractPaused);
        }
        if self.is_blacklisted(user) {
            return Err(CustomError::UserBlacklisted);
        }
        if !self.config.is_valid_amount(amount) {
            return Err(CustomError::InvalidAmount);
        }
        if user == referrer {
            return Err(CustomError::SelfReferralNotAllowed);
        }
        let funds = match split(amount, &self.config) {
            Ok(f) => f,
            Err(e) => {
                return Err(e);
            },
        };
        let final_referrer = match find_spillover_position(
            &self.referral_relationships,
            referrer,
            self.config.referral_limit,
        ) {
            Some(p) => p,
            None => {
                return Err(CustomError::NoSpilloverAvailable);
            },
        };
        let new_total_sold = match self.total_sold.checked_add(amount) {
            Some(v) => v,
            None => {
                return Err(CustomError::ArithmeticError);
            },
        };
        let new_commission_total = match self.total_commission_distributed.checked_add(
            funds.commission,
        ) {
            Some(v) => v,
            None => {
                return Err(CustomError::ArithmeticError);
            },
        };
        let new_referral_count = match self.referral_count.checked_add(1) {
            Some(v) => v,
            None => {
                return Err(CustomError::ArithmeticError);
            },
        };
        let prior_earnings = self.earnings_of(final_referrer);
        if prior_earnings > u64::MAX - funds.commission {
            return Err(CustomError::ArithmeticError);
        }
        self.total_sold = new_total_sold;
        self.total_commission_distributed = new_commission_total;
        self.referral_count = new_referral_count;
        self.referral_relationships.push(
            ReferralRelationship { user, referrer: final_referrer, timestamp: now },
        );
        proof {
            let pre = old(self).referral_relationships@;
            let post = self.referral_relationships@;
            assert forall|a: int, b: int|
                0 <= a < b < post.len() implies (#[trigger] post[a]).user != (
            #[trigger] post[b]).user by {
                if b < pre.len() {
                    assert(post[a] == pre[a]);
                    assert(post[b] == pre[b]);
                } else {
                    assert(post[a] == pre[a]);
                    assert(post[b].user == user);
                    if pre[a].user == user {
                        assert(spec_has_relationship(pre, user));
                    }
                }
            }
        }
        credit_user_earnings(&mut self.users, final_referrer, funds.commission);
        Ok(GiftCardPurchaseEvent {
            user,
            referrer: final_referrer,
            amount,
            commission: funds.commission,
            founder_share: funds.residual,
            timestamp: now,
        })
    }
}

/// Credits `add` to the earnings of the record keyed by `p`, creating the
/// record with package zero when none exists; all other records stay as
/// they are.
fn credit_user_earnings(users: &mut Vec<User>, p: Principal, add: u64)
    requires
        crate::state::spec_distinct_user_keys(old(users)@),
        spec_earnings_of(old(users)@, p) + add <= u64::MAX,
    ensures
        crate::state::spec_distinct_user_keys(final(users)@),
        spec_find_user(final(users)@, p) == Some(
            User {
                key: p,
                current_package: spec_package_of(old(users)@, p),
                total_earnings: (spec_earnings_of(old(users)@, p) + add) as u64,
            },
        ),
        forall|q: Principal|
            q != p ==> spec_find_user(final(users)@, q) == spec_find_user(old(users)@, q),
{
    match find_user_index(users, p) {
        Some(i) => {
            let prior = users[i];
            let updated = User {
                key: p,
                current_package: prior.current_package,
                total_earnings: prior.total_earnings + add,
            };
            users.set(i, updated);
            proof {
                let pre = old(users)@;
                let post = users@;
                assert forall|a: int, b: int|
                    0 <= a < b < post.len() implies (#[trigger] post[a]).key != (
                #[trigger] post[b]).key by {
                    assert(pre[a].key != pre[b].key);
                }
                crate::state::lemma_find_user_present(post, p, i as int);
                assert forall|q: Principal|
                    q != p implies spec_find_user(post, q) == spec_find_user(pre, q) by {
                    crate::state::lemma_find_user_update_other(pre, i as int, updated, q);
                }
            }
        },
        None => {
            let fresh = User { key: p, current_package: 0, total_earnings: add };
            users.push(fresh);
            proof {
                let pre = old(users)@;
                let post = users@;
                assert forall|a: int, b: int|
                    0 <= a < b < post.len() implies (#[trigger] post[a]).key != (
                #[trigger] post[b]).key by {
                    if b < pre.len() {
                        assert(post[a] == pre[a]);
                        assert(post[b] == pre[b]);
                    } else {
                        assert(post[b] == fresh);
                        assert(post[a] == pre[a]);
                    }
                }
                assert forall|q: Principal|
                    #![auto]
                    true implies spec_find_user(post, q) == (if q == p {
                    Some(fresh)
                } else {
                    spec_find_user(pre, q)
                }) by {
                    crate::state::lemma_find_user_push(pre, fresh, q);
                }
            }
        },
    }
}

/// Writes `package` into the record keyed by `user`, creating the record
/// with zero earnings when none exists; all other records stay as they
/// are.
fn set_user_package(users: &mut Vec<User>, user: Principal, package: u64)
    requires
        crate::state::spec_distinct_user_keys(old(users)@),
    ensures
        crate::state::spec_distinct_user_keys(final(users)@),
        spec_find_user(final(users)@, user) == Some(
            User {
                key: user,
                current_package: package,
                total_earnings: spec_earnings_of(old(users)@, user),
            },
        ),
        forall|q: Principal|
            q != user ==> spec_find_user(final(users)@, q) == spec_find_user(old(users)@, q),
{
    match find_user_index(users, user) {
        Some(i) => {
            let prior_earnings = users[i].total_earnings;
            let updated = User { key: user, current_package: package, total_earnings: prior_earnings };
            users.set(i, updated);
            proof {
                let pre = old(users)@;
                let post = users@;
                assert forall|a: int, b: int|
                    0 <= a < b < post.len() implies (#[trigger] post[a]).key != (
                #[trigger] post[b]).key by {
                    assert(pre[a].key != pre[b].key);
                }
                crate::state::lemma_find_user_present(post, user, i as int);
                assert forall|q: Principal|
                    q != user implies spec_find_user(post, q) == spec_find_user(pre, q) by {
                    crate::state::lemma_find_user_update_other(pre, i as int, updated, q);
                }
            }
        },
        None => {
            let fresh = User { key: user, current_package: package, total_earnings: 0 };
            users.push(fresh);
            proof {
                let pre = old(users)@;
                let post = users@;
                assert forall|a: int, b: int|
                    0 <= a < b < post.len() implies (#[trigger] post[a]).key != (
                #[trigger] post[b]).key by {
                    if b < pre.len() {
                        assert(post[a] == pre[a]);
                        assert(post[b] == pre[b]);
                    } else {
                        assert(post[b] == fresh);
                        assert(post[a] == pre[a]);
                    }
                }
                assert forall|q: Principal|
                    #![auto]
                    true implies spec_find_user(post, q) == (if q == user {
                    Some(fresh)
                } else {
                    spec_find_user(pre, q)
                }) by {
                    crate::state::lemma_find_user_push(pre, fresh, q);
                }
            }
        },
    }
}

} // verus!
