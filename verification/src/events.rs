use vstd::prelude::*;

use crate::config::ContractConfig;
use crate::principal::Principal;

verus! {

/// Emitted once when the ledger is created.
#[derive(Clone, Copy, PartialEq, Eq, Structural, Debug)]
pub struct InitializeEvent {
    pub owner: Principal,
    pub founder_wallet: Principal,
    pub timestamp: i64,
}

/// Emitted when the owner replaces the whole configuration.
#[derive(Clone, Debug)]
pub struct ConfigUpdateEvent {
    pub admin: Principal,
    pub new_config: ContractConfig,
    pub timestamp: i64,
}

/// Emitted when the owner flips the pause flag; carries the new state.
#[derive(Clone, Copy, PartialEq, Eq, Structural, Debug)]
pub struct PauseEvent {
    pub admin: Principal,
    pub paused: bool,
    pub timestamp: i64,
}

/// Emitted on a successful package upgrade; `difference` is the amount the
/// environment must transfer from the user to the treasury.
#[derive(Clone, Copy, PartialEq, Eq, Structural, Debug)]
pub struct PackageUpgradeEvent {
    pub user: Principal,
    pub old_package: u64,
    pub new_package: u64,
    pub difference: u64,
    pub timestamp: i64,
}

/// Emitted on a successful purchase; the environment must transfer
/// `commission` from the user to `referrer` and `founder_share` from the
/// user to the founder wallet. The bonus share is withheld from both.
#[derive(Clone, Copy, PartialEq, Eq, Structural, Debug)]
pub struct GiftCardPurchaseEvent {
    pub user: Principal,
    pub referrer: Principal,
    pub amount: u64,
    pub commission: u64,
    pub founder_share: u64,
    pub timestamp: i64,
}

/// Emitted when the owner provisions a package without payment.
#[derive(Clone, Copy, PartialEq, Eq, Structural, Debug)]
pub struct PackageGrantedEvent {
    pub admin: Principal,
    pub user: Principal,
    pub package: u64,
    pub timestamp: i64,
}

/// Emitted when the owner adjusts the commission fields of the
/// configuration.
#[derive(Clone, Copy, PartialEq, Eq, Structural, Debug)]
pub struct CommissionConfigEvent {
    pub admin: Principal,
    pub new_percentage: u64,
    pub new_levels: u8,
    pub timestamp: i64,
}

/// Which way a blacklist event went.
#[derive(Clone, Copy, PartialEq, Eq, Structural, Debug)]
pub enum BlacklistAction {
    Add,
    Remove,
}

/// Emitted on every blacklist administration call, tagged with the
/// direction.
#[derive(Clone, Copy, PartialEq, Eq, Structural, Debug)]
pub struct BlacklistEvent {
    pub admin: Principal,
    pub user: Principal,
    pub action: BlacklistAction,
    pub timestamp: i64,
}

} // verus!
