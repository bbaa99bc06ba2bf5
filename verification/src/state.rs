use vstd::prelude::*;

use crate::config::ContractConfig;
use crate::principal::Principal;

verus! {

/// An immutable record linking a purchasing user to the referrer credited
/// for that purchase, stamped with the environment's clock reading.
#[derive(Clone, Copy, PartialEq, Eq, Structural, Debug)]
pub struct ReferralRelationship {
    pub user: Principal,
    pub referrer: Principal,
    pub timestamp: i64,
}

/// The per-user record: the highest package bought or granted so far, and
/// the cumulative commission received as a referrer.
#[derive(Clone, Copy, PartialEq, Eq, Structural, Debug)]
pub struct User {
    pub key: Principal,
    pub current_package: u64,
    pub total_earnings: u64,
}

/// The singleton ledger state: administrative identities, the pause flag,
/// the aggregate counters, the current configuration, the blacklist, the
/// append-only relationship history, and the per-user records.
#[derive(Clone, Debug)]
pub struct SolBox {
    /// Principal with administrative authority; set once at initialization.
    pub owner: Principal,
    /// Destination of the residual share of every purchase.
    pub founder_wallet: Principal,
    /// While true, all purchase and upgrade operations fail.
    pub paused: bool,
    /// Sum of all accepted purchase amounts; non-decreasing.
    pub total_sold: u64,
    /// Sum of all commissions credited; non-decreasing and never above
    /// `total_sold`.
    pub total_commission_distributed: u64,
    /// Count of recorded relationships; always equals the history's length.
    pub referral_count: u64,
    /// The current owner-versioned configuration.
    pub config: ContractConfig,
    /// Principals forbidden from purchasing or upgrading; no duplicates.
    pub blacklisted_users: Vec<Principal>,
    /// Append-only history of referral placements, in insertion order.
    pub referral_relationships: Vec<ReferralRelationship>,
    /// One record per participating principal, created lazily.
    pub users: Vec<User>,
}

/// The record of principal `p` among the per-user records, if any; with
/// unique keys the scan direction does not matter.
pub open spec fn spec_find_user(users: Seq<User>, p: Principal) -> Option<User>
    decreases users.len(),
{
    if users.len() == 0 {
        None
    } else if users.last().key == p {
        Some(users.last())
    } else {
        spec_find_user(users.drop_last(), p)
    }
}

/// The cumulative earnings recorded for `p`; zero for a principal without
/// a record.
pub open spec fn spec_earnings_of(users: Seq<User>, p: Principal) -> u64 {
    match spec_find_user(users, p) {
        Some(u) => u.total_earnings,
        None => 0,
    }
}

/// The current package recorded for `p`; zero for a principal without a
/// record.
pub open spec fn spec_package_of(users: Seq<User>, p: Principal) -> u64 {
    match spec_find_user(users, p) {
        Some(u) => u.current_package,
        None => 0,
    }
}

/// Whether `user` already appears as the purchasing party of a recorded
/// relationship; a purchase is a one-time referral-establishing event per
/// user.
pub open spec fn spec_has_relationship(rels: Seq<ReferralRelationship>, user: Principal) -> bool {
    exists|i: int| 0 <= i < rels.len() && rels[i].user == user
}

/// A sequence of principals without duplicates.
pub open spec fn spec_distinct_principals(s: Seq<Principal>) -> bool {
    forall|i: int, j: int| 0 <= i < j < s.len() ==> s[i] != s[j]
}

/// Per-user records carry pairwise distinct keys.
pub open spec fn spec_distinct_user_keys(users: Seq<User>) -> bool {
    forall|i: int, j: int|
        0 <= i < j < users.len() ==> (#[trigger] users[i]).key != (#[trigger] users[j]).key
}

/// Each user appears as purchaser in at most one relationship.
pub open spec fn spec_distinct_relationship_users(rels: Seq<ReferralRelationship>) -> bool {
    forall|i: int, j: int|
        0 <= i < j < rels.len() ==> (#[trigger] rels[i]).user != (#[trigger] rels[j]).user
}

/// A sequence with no record keyed by `p` finds nothing for `p`.
pub proof fn lemma_find_user_absent(users: Seq<User>, p: Principal)
    requires
        forall|i: int| 0 <= i < users.len() ==> (#[trigger] users[i]).key != p,
    ensures
        spec_find_user(users, p) is None,
    decreases users.len(),
{
    if users.len() > 0 {
        assert(users.last() == users[users.len() - 1]);
        lemma_find_user_absent(users.drop_last(), p);
    }
}

/// With pairwise distinct keys, the lookup returns exactly the record that
/// stands at an index whose key matches.
pub proof fn lemma_find_user_present(users: Seq<User>, p: Principal, i: int)
    requires
        spec_distinct_user_keys(users),
        0 <= i < users.len(),
        users[i].key == p,
    ensures
        spec_find_user(users, p) == Some(users[i]),
    decreases users.len(),
{
    if i == users.len() - 1 {
        assert(users.last() == users[i]);
    } else {
        assert(users.last() == users[users.len() - 1]);
        assert(users[i].key != users[users.len() - 1].key);
        let prefix = users.drop_last();
        assert(prefix[i] == users[i]);
        assert(spec_distinct_user_keys(prefix)) by {
            assert forall|a: int, b: int|
                0 <= a < b < prefix.len() implies (#[trigger] prefix[a]).key != (
            #[trigger] prefix[b]).key by {
                assert(prefix[a] == users[a]);
                assert(prefix[b] == users[b]);
            }
        }
        lemma_find_user_present(prefix, p, i);
    }
}

/// Replacing the record at `i` by one with the same key changes the lookup
/// nowhere else.
pub proof fn lemma_find_user_update_other(users: Seq<User>, i: int, u: User, q: Principal)
    requires
        0 <= i < users.len(),
        users[i].key == u.key,
        q != u.key,
    ensures
        spec_find_user(users.update(i, u), q) == spec_find_user(users, q),
    decreases users.len(),
{
    let upd = users.update(i, u);
    if i == users.len() - 1 {
        assert(upd.last() == u);
        assert(users.last() == users[i]);
        assert(upd.drop_last() =~= users.drop_last());
    } else {
        assert(upd.last() == users.last());
        assert(upd.drop_last() =~= users.drop_last().update(i, u));
        if users.last().key != q {
            assert(users.drop_last()[i] == users[i]);
            lemma_find_user_update_other(users.drop_last(), i, u, q);
        }
    }
}

/// Appending a record changes the lookup only for the appended key.
pub proof fn lemma_find_user_push(users: Seq<User>, u: User, q: Principal)
    ensures
        spec_find_user(users.push(u), q) == if u.key == q {
            Some(u)
        } else {
            spec_find_user(users, q)
        },
{
    assert(users.push(u).last() == u);
    assert(users.push(u).drop_last() =~= users);
}

impl SolBox {
    /// The bookkeeping invariants that every transition preserves: a
    /// well-formed configuration, the relationship counter equal to the
    /// history length, commissions never exceeding sales, distinct
    /// blacklist entries, distinct user-record keys, and one relationship
    /// per purchasing user.
    pub open spec fn wf(&self) -> bool {
        &&& self.config.wf()
        &&& self.referral_count == self.referral_relationships@.len()
        &&& self.total_commission_distributed <= self.total_sold
        &&& spec_distinct_principals(self.blacklisted_users@)
        &&& spec_distinct_user_keys(self.users@)
        &&& spec_distinct_relationship_users(self.referral_relationships@)
    }

    /// Whether `p` is currently forbidden from purchasing or upgrading.
    pub fn is_blacklisted(&self, p: Principal) -> (r: bool)
        ensures
            r == self.blacklisted_users@.contains(p),
    {
        let mut i: usize = 0;
        while i < self.blacklisted_users.len()
            invariant
                i <= self.blacklisted_users@.len(),
                forall|j: int| 0 <= j < i ==> self.blacklisted_users@[j] != p,
            decreases self.blacklisted_users@.len() - i,
        {
            if self.blacklisted_users[i] == p {
                return true;
            }
            i = i + 1;
        }
        false
    }

    /// Whether `user` already appears as purchaser in the relationship
    /// history.
    pub fn has_relationship(&self, user: Principal) -> (r: bool)
        ensures
            r == spec_has_relationship(self.referral_relationships@, user),
    {
        let mut i: usize = 0;
        while i < self.referral_relationships.len()
            invariant
                i <= self.referral_relationships@.len(),
                forall|j: int|
                    0 <= j < i ==> (#[trigger] self.referral_relationships@[j]).user != user,
            decreases self.referral_relationships@.len() - i,
        {
            if self.referral_relationships[i].user == user {
                return true;
            }
            i = i + 1;
        }
        false
    }

    /// The recorded earnings of `p`, for callers outside the proof world.
    pub fn earnings_of(&self, p: Principal) -> (r: u64)
        requires
            self.wf(),
        ensures
            r == spec_earnings_of(self.users@, p),
    {
        match find_user_index(&self.users, p) {
            Some(i) => self.users[i].total_earnings,
            None => 0,
        }
    }

    /// The recorded package of `p`, for callers outside the proof world.
    pub fn package_of(&self, p: Principal) -> (r: u64)
        requires
            self.wf(),
        ensures
            r == spec_package_of(self.users@, p),
    {
        match find_user_index(&self.users, p) {
            Some(i) => self.users[i].current_package,
            None => 0,
        }
    }
}

/// Index of the record keyed by `p`, if one exists. Keys must be distinct
/// so that the index determines the lookup.
pub fn find_user_index(users: &Vec<User>, p: Principal) -> (r: Option<usize>)
    requires
        spec_distinct_user_keys(users@),
    ensures
        match r {
            Some(i) => {
                &&& i < users@.len()
                &&& users@[i as int].key == p
                &&& spec_find_user(users@, p) == Some(users@[i as int])
            },
            None => {
                &&& spec_find_user(users@, p) is None
                &&& forall|j: int| 0 <= j < users@.len() ==> (#[trigger] users@[j]).key != p
            },
        },
{
    let mut i: usize = 0;
    while i < users.len()
        invariant
            i <= users@.len(),
            spec_distinct_user_keys(users@),
            forall|j: int| 0 <= j < i ==> (#[trigger] users@[j]).key != p,
        decreases users@.len() - i,
    {
        if users[i].key == p {
            proof {
                lemma_find_user_present(users@, p, i as int);
            }
            return Some(i);
        }
        i = i + 1;
    }
    proof {
        lemma_find_user_absent(users@, p);
    }
    None
}

} // verus!
