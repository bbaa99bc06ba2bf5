use solbox::config::ContractConfig;
use solbox::errors::CustomError;
use solbox::events::BlacklistAction;
use solbox::principal::Principal;
use solbox::state::SolBox;

fn p(id: u128) -> Principal {
    Principal::new(0, id)
}

fn standard_config() -> ContractConfig {
    ContractConfig {
        referral_limit: 3,
        commission_percentage: 90,
        commission_levels: 1,
        bonus_percentage: 5,
        valid_amounts: vec![200_000_000, 1_000_000_000, 3_000_000_000],
    }
}

fn fresh_ledger() -> SolBox {
    let (solbox, _) = SolBox::initialize(p(1), p(2), standard_config(), 100);
    solbox
}

fn assert_states_equal(a: &SolBox, b: &SolBox) {
    assert_eq!(a.owner, b.owner);
    assert_eq!(a.founder_wallet, b.founder_wallet);
    assert_eq!(a.paused, b.paused);
    assert_eq!(a.total_sold, b.total_sold);
    assert_eq!(a.total_commission_distributed, b.total_commission_distributed);
    assert_eq!(a.referral_count, b.referral_count);
    assert_eq!(a.config.referral_limit, b.config.referral_limit);
    assert_eq!(a.config.commission_percentage, b.config.commission_percentage);
    assert_eq!(a.config.commission_levels, b.config.commission_levels);
    assert_eq!(a.config.bonus_percentage, b.config.bonus_percentage);
    assert_eq!(a.config.valid_amounts, b.config.valid_amounts);
    assert_eq!(a.blacklisted_users, b.blacklisted_users);
    assert_eq!(a.referral_relationships, b.referral_relationships);
    assert_eq!(a.users, b.users);
}

#[test]
fn initialize_zeroes_everything() {
    let (solbox, event) = SolBox::initialize(p(1), p(2), standard_config(), 100);
    assert_eq!(solbox.owner, p(1));
    assert_eq!(solbox.founder_wallet, p(2));
    assert!(!solbox.paused);
    assert_eq!(solbox.total_sold, 0);
    assert_eq!(solbox.total_commission_distributed, 0);
    assert_eq!(solbox.referral_count, 0);
    assert!(solbox.blacklisted_users.is_empty());
    assert!(solbox.referral_relationships.is_empty());
    assert!(solbox.users.is_empty());
    assert_eq!(event.owner, p(1));
    assert_eq!(event.founder_wallet, p(2));
    assert_eq!(event.timestamp, 100);
}

#[test]
fn scenario_first_purchase_credits_requested_referrer() {
    let mut solbox = fresh_ledger();
    let event = solbox.buy_gift_card(p(10), p(11), 200_000_000, 101).expect("purchase is owed");
    assert_eq!(event.commission, 180_000_000);
    assert_eq!(event.founder_share, 10_000_000);
    assert_eq!(event.referrer, p(11));
    assert_eq!(event.user, p(10));
    assert_eq!(event.amount, 200_000_000);
    assert_eq!(solbox.total_sold, 200_000_000);
    assert_eq!(solbox.total_commission_distributed, 180_000_000);
    assert_eq!(solbox.referral_count, 1);
    assert_eq!(solbox.referral_relationships.len(), 1);
    assert_eq!(solbox.referral_relationships[0].user, p(10));
    assert_eq!(solbox.referral_relationships[0].referrer, p(11));
    assert_eq!(solbox.referral_relationships[0].timestamp, 101);
    assert_eq!(solbox.earnings_of(p(11)), 180_000_000);
}

#[test]
fn scenario_spillover_to_earliest_open_referrer() {
    let mut solbox = fresh_ledger();
    // One relationship credits referrer 20 first, then referrer 21 fills to
    // the limit of three.
    solbox.buy_gift_card(p(30), p(20), 200_000_000, 101).expect("purchase is owed");
    solbox.buy_gift_card(p(31), p(21), 200_000_000, 102).expect("purchase is owed");
    solbox.buy_gift_card(p(32), p(21), 200_000_000, 103).expect("purchase is owed");
    solbox.buy_gift_card(p(33), p(21), 200_000_000, 104).expect("purchase is owed");
    // Referrer 21 is saturated: the purchase naming it lands on 20, the
    // earliest under-capacity referrer in the history.
    let event = solbox.buy_gift_card(p(34), p(21), 200_000_000, 105).expect("purchase is owed");
    assert_eq!(event.referrer, p(20));
    assert_eq!(solbox.referral_relationships[4].referrer, p(20));
    assert_eq!(solbox.earnings_of(p(20)), 360_000_000);
}

#[test]
fn purchase_exhaustion_fails_and_mutates_nothing() {
    let config = ContractConfig {
        referral_limit: 1,
        commission_percentage: 90,
        commission_levels: 1,
        bonus_percentage: 5,
        valid_amounts: vec![200_000_000],
    };
    let (mut solbox, _) = SolBox::initialize(p(1), p(2), config, 100);
    solbox.buy_gift_card(p(10), p(11), 200_000_000, 101).expect("purchase is owed");
    let snapshot = solbox.clone();
    let result = solbox.buy_gift_card(p(12), p(11), 200_000_000, 102);
    assert_eq!(result.unwrap_err(), CustomError::NoSpilloverAvailable);
    assert_states_equal(&solbox, &snapshot);
}

#[test]
fn purchase_by_blacklisted_user_changes_no_counter() {
    let mut solbox = fresh_ledger();
    solbox.add_to_blacklist(p(1), p(10), 101).expect("owner may blacklist");
    let snapshot = solbox.clone();
    let result = solbox.buy_gift_card(p(10), p(11), 200_000_000, 102);
    assert_eq!(result.unwrap_err(), CustomError::UserBlacklisted);
    assert_states_equal(&solbox, &snapshot);
}

#[test]
fn purchase_while_paused_fails() {
    let mut solbox = fresh_ledger();
    solbox.toggle_pause(p(1), 101).expect("owner may pause");
    let snapshot = solbox.clone();
    let result = solbox.buy_gift_card(p(10), p(11), 200_000_000, 102);
    assert_eq!(result.unwrap_err(), CustomError::ContractPaused);
    assert_states_equal(&solbox, &snapshot);
}

#[test]
fn purchase_with_invalid_amount_fails() {
    let mut solbox = fresh_ledger();
    let snapshot = solbox.clone();
    let result = solbox.buy_gift_card(p(10), p(11), 123, 101);
    assert_eq!(result.unwrap_err(), CustomError::InvalidAmount);
    assert_states_equal(&solbox, &snapshot);
}

#[test]
fn self_referral_is_rejected() {
    let mut solbox = fresh_ledger();
    let snapshot = solbox.clone();
    let result = solbox.buy_gift_card(p(10), p(10), 200_000_000, 101);
    assert_eq!(result.unwrap_err(), CustomError::SelfReferralNotAllowed);
    assert_states_equal(&solbox, &snapshot);
}

#[test]
fn purchase_total_sold_overflow_is_rejected_atomically() {
    let huge = 1u64 << 63;
    let config = ContractConfig {
        referral_limit: 3,
        commission_percentage: 0,
        commission_levels: 1,
        bonus_percentage: 0,
        valid_amounts: vec![huge],
    };
    let (mut solbox, _) = SolBox::initialize(p(1), p(2), config, 100);
    solbox.buy_gift_card(p(10), p(11), huge, 101).expect("purchase is owed");
    let snapshot = solbox.clone();
    let result = solbox.buy_gift_card(p(12), p(13), huge, 102);
    assert_eq!(result.unwrap_err(), CustomError::ArithmeticError);
    assert_states_equal(&solbox, &snapshot);
}

#[test]
fn purchase_commission_overflow_is_rejected_atomically() {
    let huge = u64::MAX / 2;
    let config = ContractConfig {
        referral_limit: 3,
        commission_percentage: 90,
        commission_levels: 1,
        bonus_percentage: 5,
        valid_amounts: vec![huge],
    };
    let (mut solbox, _) = SolBox::initialize(p(1), p(2), config, 100);
    let snapshot = solbox.clone();
    let result = solbox.buy_gift_card(p(10), p(11), huge, 101);
    assert_eq!(result.unwrap_err(), CustomError::ArithmeticError);
    assert_states_equal(&solbox, &snapshot);
}

#[test]
fn counters_are_monotonic_over_a_sequence_of_purchases() {
    let mut solbox = fresh_ledger();
    let mut last_sold = 0u64;
    let mut last_commission = 0u64;
    let buyers = [(40u128, 20u128), (41, 21), (42, 20), (43, 22), (44, 21)];
    for (i, &(buyer, referrer)) in buyers.iter().enumerate() {
        solbox
            .buy_gift_card(p(buyer), p(referrer), 200_000_000, 200 + i as i64)
            .expect("purchase is owed");
        assert!(solbox.total_sold >= last_sold);
        assert!(solbox.total_commission_distributed >= last_commission);
        assert!(solbox.total_commission_distributed <= solbox.total_sold);
        last_sold = solbox.total_sold;
        last_commission = solbox.total_commission_distributed;
    }
    assert_eq!(solbox.total_sold, 1_000_000_000);
    assert_eq!(solbox.total_commission_distributed, 900_000_000);
}

#[test]
fn earnings_accumulate_per_referrer() {
    let mut solbox = fresh_ledger();
    solbox.buy_gift_card(p(10), p(20), 200_000_000, 101).expect("purchase is owed");
    solbox.buy_gift_card(p(11), p(20), 1_000_000_000, 102).expect("purchase is owed");
    assert_eq!(solbox.earnings_of(p(20)), 180_000_000 + 900_000_000);
    assert_eq!(solbox.earnings_of(p(10)), 0);
}

#[test]
fn toggle_pause_by_non_owner_fails() {
    let mut solbox = fresh_ledger();
    let snapshot = solbox.clone();
    let result = solbox.toggle_pause(p(99), 101);
    assert_eq!(result.unwrap_err(), CustomError::Unauthorized);
    assert_states_equal(&solbox, &snapshot);
    assert!(!solbox.paused);
}

#[test]
fn toggle_pause_flips_both_ways() {
    let mut solbox = fresh_ledger();
    let event = solbox.toggle_pause(p(1), 101).expect("owner may pause");
    assert!(solbox.paused);
    assert!(event.paused);
    let event = solbox.toggle_pause(p(1), 102).expect("owner may unpause");
    assert!(!solbox.paused);
    assert!(!event.paused);
}

#[test]
fn upgrade_to_same_package_fails() {
    let mut solbox = fresh_ledger();
    solbox.grant_package(p(1), p(10), 200_000_000, 101).expect("owner may grant");
    let snapshot = solbox.clone();
    let result = solbox.upgrade_package(p(10), 200_000_000, 102);
    assert_eq!(result.unwrap_err(), CustomError::InvalidUpgrade);
    assert_states_equal(&solbox, &snapshot);
}

#[test]
fn upgrade_pays_the_difference() {
    let mut solbox = fresh_ledger();
    solbox.grant_package(p(1), p(10), 200_000_000, 101).expect("owner may grant");
    let event = solbox.upgrade_package(p(10), 1_000_000_000, 102).expect("upgrade is owed");
    assert_eq!(event.old_package, 200_000_000);
    assert_eq!(event.new_package, 1_000_000_000);
    assert_eq!(event.difference, 800_000_000);
    assert_eq!(solbox.package_of(p(10)), 1_000_000_000);
}

#[test]
fn upgrade_without_record_starts_from_zero() {
    let mut solbox = fresh_ledger();
    let event = solbox.upgrade_package(p(10), 200_000_000, 101).expect("upgrade is owed");
    assert_eq!(event.old_package, 0);
    assert_eq!(event.difference, 200_000_000);
    assert_eq!(solbox.package_of(p(10)), 200_000_000);
}

#[test]
fn upgrade_by_blacklisted_user_fails() {
    let mut solbox = fresh_ledger();
    solbox.add_to_blacklist(p(1), p(10), 101).expect("owner may blacklist");
    let snapshot = solbox.clone();
    let result = solbox.upgrade_package(p(10), 200_000_000, 102);
    assert_eq!(result.unwrap_err(), CustomError::UserBlacklisted);
    assert_states_equal(&solbox, &snapshot);
}

#[test]
fn grant_package_validates_amount_and_authority() {
    let mut solbox = fresh_ledger();
    let snapshot = solbox.clone();
    assert_eq!(
        solbox.grant_package(p(99), p(10), 200_000_000, 101).unwrap_err(),
        CustomError::Unauthorized
    );
    assert_states_equal(&solbox, &snapshot);
    assert_eq!(
        solbox.grant_package(p(1), p(10), 123, 101).unwrap_err(),
        CustomError::InvalidAmount
    );
    assert_states_equal(&solbox, &snapshot);
    let event = solbox.grant_package(p(1), p(10), 200_000_000, 101).expect("owner may grant");
    assert_eq!(event.user, p(10));
    assert_eq!(event.package, 200_000_000);
    assert_eq!(solbox.package_of(p(10)), 200_000_000);
}

#[test]
fn blacklist_add_is_idempotent_and_remove_restores() {
    let mut solbox = fresh_ledger();
    let event = solbox.add_to_blacklist(p(1), p(10), 101).expect("owner may blacklist");
    assert!(matches!(event.action, BlacklistAction::Add));
    solbox.add_to_blacklist(p(1), p(10), 102).expect("repeat add is idempotent");
    assert_eq!(solbox.blacklisted_users.len(), 1);
    assert!(solbox.is_blacklisted(p(10)));
    let event = solbox.remove_from_blacklist(p(1), p(10), 103).expect("owner may unblacklist");
    assert!(matches!(event.action, BlacklistAction::Remove));
    assert!(!solbox.is_blacklisted(p(10)));
    assert!(solbox.blacklisted_users.is_empty());
    // Removing an absent principal changes nothing and still reports.
    let snapshot = solbox.clone();
    solbox.remove_from_blacklist(p(1), p(11), 104).expect("remove is idempotent");
    assert_states_equal(&solbox, &snapshot);
}

#[test]
fn blacklist_remove_keeps_other_entries() {
    let mut solbox = fresh_ledger();
    solbox.add_to_blacklist(p(1), p(10), 101).expect("owner may blacklist");
    solbox.add_to_blacklist(p(1), p(11), 102).expect("owner may blacklist");
    solbox.add_to_blacklist(p(1), p(12), 103).expect("owner may blacklist");
    solbox.remove_from_blacklist(p(1), p(11), 104).expect("owner may unblacklist");
    assert!(solbox.is_blacklisted(p(10)));
    assert!(!solbox.is_blacklisted(p(11)));
    assert!(solbox.is_blacklisted(p(12)));
    assert_eq!(solbox.blacklisted_users.len(), 2);
}

#[test]
fn blacklist_by_non_owner_fails() {
    let mut solbox = fresh_ledger();
    let snapshot = solbox.clone();
    assert_eq!(
        solbox.add_to_blacklist(p(99), p(10), 101).unwrap_err(),
        CustomError::Unauthorized
    );
    assert_eq!(
        solbox.remove_from_blacklist(p(99), p(10), 102).unwrap_err(),
        CustomError::Unauthorized
    );
    assert_states_equal(&solbox, &snapshot);
}

#[test]
fn update_config_replaces_configuration() {
    let mut solbox = fresh_ledger();
    let new_config = ContractConfig {
        referral_limit: 5,
        commission_percentage: 80,
        commission_levels: 2,
        bonus_percentage: 10,
        valid_amounts: vec![500],
    };
    let event = solbox.update_config(p(1), new_config, 101).expect("owner may configure");
    assert_eq!(solbox.config.referral_limit, 5);
    assert_eq!(solbox.config.commission_percentage, 80);
    assert_eq!(solbox.config.bonus_percentage, 10);
    assert_eq!(solbox.config.valid_amounts, vec![500]);
    assert_eq!(event.new_config.commission_percentage, 80);
    assert_eq!(event.timestamp, 101);
}

#[test]
fn update_config_rejected_while_paused_or_unauthorized() {
    let mut solbox = fresh_ledger();
    let other_config = standard_config();
    assert_eq!(
        solbox.update_config(p(99), other_config, 101).unwrap_err(),
        CustomError::Unauthorized
    );
    solbox.toggle_pause(p(1), 102).expect("owner may pause");
    let snapshot = solbox.clone();
    let result = solbox.update_config(p(1), standard_config(), 103);
    assert_eq!(result.unwrap_err(), CustomError::ContractPaused);
    assert_states_equal(&solbox, &snapshot);
}

#[test]
fn update_commission_config_touches_only_commission_fields() {
    let mut solbox = fresh_ledger();
    let event = solbox
        .update_commission_config(p(1), 70, 4, 101)
        .expect("owner may adjust commission");
    assert_eq!(solbox.config.commission_percentage, 70);
    assert_eq!(solbox.config.commission_levels, 4);
    assert_eq!(solbox.config.bonus_percentage, 5);
    assert_eq!(solbox.config.referral_limit, 3);
    assert_eq!(event.new_percentage, 70);
    assert_eq!(event.new_levels, 4);
    assert_eq!(
        solbox.update_commission_config(p(99), 70, 4, 102).unwrap_err(),
        CustomError::Unauthorized
    );
}

#[test]
fn has_relationship_tracks_buyers() {
    let mut solbox = fresh_ledger();
    assert!(!solbox.has_relationship(p(10)));
    solbox.buy_gift_card(p(10), p(11), 200_000_000, 101).expect("purchase is owed");
    assert!(solbox.has_relationship(p(10)));
    assert!(!solbox.has_relationship(p(11)));
}
