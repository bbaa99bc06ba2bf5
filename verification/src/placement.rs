use vstd::prelude::*;

use crate::principal::Principal;
use crate::state::ReferralRelationship;

verus! {

/// How many recorded relationships credit `p` as referrer: a fold over the
/// full history, never a cached counter, so that replays and audits
/// reproduce identical placement.
pub open spec fn referrer_count(rels: Seq<ReferralRelationship>, p: Principal) -> nat
    decreases rels.len(),
{
    if rels.len() == 0 {
        0
    } else {
        referrer_count(rels.drop_last(), p) + (if rels.last().referrer == p {
            1nat
        } else {
            0nat
        })
    }
}

/// The first referrer at or after position `i`, in insertion order, whose
/// global relationship count is below `limit`.
pub open spec fn first_open_from(rels: Seq<ReferralRelationship>, i: int, limit: u8) -> Option<
    Principal,
>
    decreases rels.len() - i,
{
    if i < 0 || i >= rels.len() {
        None
    } else if referrer_count(rels, rels[i].referrer) < limit {
        Some(rels[i].referrer)
    } else {
        first_open_from(rels, i + 1, limit)
    }
}

/// The placement rule: the requested referrer if below capacity, otherwise
/// the first under-capacity referrer in insertion order, otherwise no slot.
pub open spec fn resolve_spec(
    rels: Seq<ReferralRelationship>,
    requested: Principal,
    limit: u8,
) -> Option<Principal> {
    if referrer_count(rels, requested) < limit {
        Some(requested)
    } else {
        first_open_from(rels, 0, limit)
    }
}

/// Counts the relationships crediting `p`, by scanning the whole history.
pub fn count_referrals(rels: &Vec<ReferralRelationship>, p: Principal) -> (n: usize)
    ensures
        n == referrer_count(rels@, p),
{
    let mut n: usize = 0;
    let mut i: usize = 0;
    while i < rels.len()
        invariant
            i <= rels@.len(),
            n <= i,
            n == referrer_count(rels@.take(i as int), p),
        decreases rels@.len() - i,
    {
        proof {
            assert(rels@.take(i + 1).drop_last() =~= rels@.take(i as int));
            assert(rels@.take(i + 1).last() == rels@[i as int]);
        }
        if rels[i].referrer == p {
            n = n + 1;
        }
        i = i + 1;
    }
    proof {
        assert(rels@.take(rels@.len() as int) =~= rels@);
    }
    n
}

/// Decides the referrer actually credited for a purchase naming `referrer`:
/// the requested referrer while below `limit`, else the earliest referrer in
/// the history with spare capacity, else `None`. The result is derived from
/// the relationship history alone, so a replay reproduces it exactly.
pub fn find_spillover_position(
    relationships: &Vec<ReferralRelationship>,
    referrer: Principal,
    limit: u8,
) -> (r: Option<Principal>)
    ensures
        r == resolve_spec(relationships@, referrer, limit),
{
    let requested_count = count_referrals(relationships, referrer);
    if requested_count < limit as usize {
        return Some(referrer);
    }
    let mut i: usize = 0;
    while i < relationships.len()
        invariant
            i <= relationships@.len(),
            referrer_count(relationships@, referrer) >= limit,
            first_open_from(relationships@, 0, limit) == first_open_from(
                relationships@,
                i as int,
                limit,
            ),
        decreases relationships@.len() - i,
    {
        let c = count_referrals(relationships, relationships[i].referrer);
        if c < limit as usize {
            return Some(relationships[i].referrer);
        }
        i = i + 1;
    }
    None
}

/// No referrer is credited more often than there are relationships.
pub proof fn lemma_referrer_count_bounded(rels: Seq<ReferralRelationship>, p: Principal)
    ensures
        referrer_count(rels, p) <= rels.len(),
    decreases rels.len(),
{
    if rels.len() > 0 {
        lemma_referrer_count_bounded(rels.drop_last(), p);
    }
}

/// While the whole history holds fewer relationships than the limit, the
/// resolver always returns the requested referrer: a caller may skip the
/// resolver in that case, or consult it unconditionally and let it
/// short-circuit — the outcome is the same.
pub proof fn lemma_resolver_short_circuits(
    rels: Seq<ReferralRelationship>,
    requested: Principal,
    limit: u8,
)
    requires
        rels.len() < limit,
    ensures
        resolve_spec(rels, requested, limit) == Some(requested),
{
    lemma_referrer_count_bounded(rels, requested);
}

/// Placement determinism: the resolver's result is a pure function of the
/// relationship history, the requested referrer and the limit, so any two
/// calls over the same history agree.
pub proof fn lemma_placement_deterministic(
    rels: Seq<ReferralRelationship>,
    requested: Principal,
    limit: u8,
    r1: Option<Principal>,
    r2: Option<Principal>,
)
    requires
        r1 == resolve_spec(rels, requested, limit),
        r2 == resolve_spec(rels, requested, limit),
    ensures
        r1 == r2,
{
}

proof fn lemma_first_open_reaches(rels: Seq<ReferralRelationship>, i: int, limit: u8, k: int)
    requires
        0 <= i <= k < rels.len(),
        referrer_count(rels, rels[k].referrer) < limit,
        forall|j: int| i <= j < k ==> referrer_count(rels, (#[trigger] rels[j]).referrer) >= limit,
    ensures
        first_open_from(rels, i, limit) == Some(rels[k].referrer),
    decreases k - i,
{
    if i < k {
        lemma_first_open_reaches(rels, i + 1, limit, k);
    }
}

proof fn lemma_first_open_exhausted(rels: Seq<ReferralRelationship>, i: int, limit: u8)
    requires
        forall|j: int| 0 <= j < rels.len() ==> referrer_count(rels, (#[trigger] rels[j]).referrer) >= limit,
    ensures
        first_open_from(rels, i, limit) is None,
    decreases rels.len() - i,
{
    if 0 <= i < rels.len() {
        lemma_first_open_exhausted(rels, i + 1, limit);
    }
}

/// Spillover correctness: when the requested referrer is saturated and some
/// position `k` holds the earliest under-capacity referrer, placement lands
/// exactly there — and never on the requested referrer.
pub proof fn lemma_spillover_earliest(
    rels: Seq<ReferralRelationship>,
    requested: Principal,
    limit: u8,
    k: int,
)
    requires
        referrer_count(rels, requested) >= limit,
        0 <= k < rels.len(),
        referrer_count(rels, rels[k].referrer) < limit,
        forall|j: int| 0 <= j < k ==> referrer_count(rels, (#[trigger] rels[j]).referrer) >= limit,
    ensures
        resolve_spec(rels, requested, limit) == Some(rels[k].referrer),
        rels[k].referrer != requested,
{
    lemma_first_open_reaches(rels, 0, limit, k);
}

/// Exhaustion: when the requested referrer and every referrer in the
/// history are at capacity, placement yields no slot.
pub proof fn lemma_placement_exhaustion(
    rels: Seq<ReferralRelationship>,
    requested: Principal,
    limit: u8,
)
    requires
        referrer_count(rels, requested) >= limit,
        forall|j: int| 0 <= j < rels.len() ==> referrer_count(rels, (#[trigger] rels[j]).referrer) >= limit,
    ensures
        resolve_spec(rels, requested, limit) is None,
{
    lemma_first_open_exhausted(rels, 0, limit);
}

} // verus!
