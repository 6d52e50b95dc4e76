//! Bond-weighted keeper rotation.
use vstd::prelude::*;

use crate::bytes::{le_bytes_u64, u64_from_le};
use crate::hashing::{sha256, sha256_digest};

verus! {

/// Represents a keeper's on-chain bond entry as far as rotation cares.
#[derive(Clone, Copy, Debug, PartialEq, Eq)]
pub struct KeeperBond {
    pub keeper: [u8; 32],
    pub bond_amount: u64,
    pub active_jobs: u32,
    pub total_executions: u64,
    pub total_slashes: u32,
}

/// A rotation candidate -- the daemon's view of an on-chain [`KeeperBond`].
#[derive(Clone, Copy, Debug, PartialEq, Eq)]
pub struct KeeperCandidate {
    pub keeper: [u8; 32],
    pub bond_amount: u64,
}

impl KeeperCandidate {
    pub fn from_bond(bond: &KeeperBond) -> (c: Self)
        ensures
            c == (KeeperCandidate { keeper: bond.keeper, bond_amount: bond.bond_amount }),
    {
        KeeperCandidate { keeper: bond.keeper, bond_amount: bond.bond_amount }
    }
}

/// The candidates whose bond meets `min_bond`, in the order given.
pub open spec fn eligible(cands: Seq<KeeperCandidate>, min_bond: u64) -> Seq<KeeperCandidate>
    decreases cands.len(),
{
    if cands.len() == 0 {
        Seq::empty()
    } else {
        let rest = eligible(cands.drop_last(), min_bond);
        if cands.last().bond_amount >= min_bond {
            rest.push(cands.last())
        } else {
            rest
        }
    }
}

/// The sum of the bonds in `s`.
pub open spec fn total_bond(s: Seq<KeeperCandidate>) -> nat
    decreases s.len(),
{
    if s.len() == 0 {
        0
    } else {
        total_bond(s.drop_last()) + s.last().bond_amount as nat
    }
}

/// Walking `e` from index `i`, the first candidate whose running bond total (counted from the
/// start of `e`) exceeds `target`.
pub open spec fn pick_from(e: Seq<KeeperCandidate>, target: int, i: int) -> Option<KeeperCandidate>
    decreases e.len() - i,
{
    if i < 0 || i >= e.len() {
        None
    } else if target < total_bond(e.take(i + 1)) {
        Some(e[i])
    } else {
        pick_from(e, target, i + 1)
    }
}

/// The leader for a given seed: among the eligible candidates, the one whose bond window
/// holds `seed mod total bond`; none when no candidate is eligible or all eligible bonds are
/// zero.
pub open spec fn leader_for_seed(
    cands: Seq<KeeperCandidate>,
    min_bond: u64,
    seed: u64,
) -> Option<KeeperCandidate> {
    let e = eligible(cands, min_bond);
    if e.len() == 0 || total_bond(e) == 0 {
        None
    } else {
        pick_from(e, seed as int % total_bond(e) as int, 0)
    }
}

/// The bytes hashed to seed the rotation: the job's key, then the slot in little-endian order.
pub open spec fn rotation_message(job_pubkey: Seq<u8>, slot: u64) -> Seq<u8> {
    job_pubkey + le_bytes_u64(slot)
}

/// The rotation seed: the first eight digest bytes, read little-endian.
pub open spec fn rotation_seed(job_pubkey: Seq<u8>, slot: u64) -> u64 {
    u64_from_le(sha256_digest(rotation_message(job_pubkey, slot)).subrange(0, 8))
}

proof fn lemma_take_drop_last<T>(s: Seq<T>, i: int)
    requires
        0 < i <= s.len(),
    ensures
        s.take(i).drop_last() == s.take(i - 1),
        s.take(i).last() == s[i - 1],
{
    assert(s.take(i).drop_last() =~= s.take(i - 1));
}

/// Running bond totals never decrease along the sequence.
proof fn lemma_total_bond_monotone(e: Seq<KeeperCandidate>, a: int, b: int)
    requires
        0 <= a <= b <= e.len(),
    ensures
        total_bond(e.take(a)) <= total_bond(e.take(b)),
    decreases b - a,
{
    if a < b {
        lemma_take_drop_last(e, b);
        lemma_total_bond_monotone(e, a, b - 1);
    }
}

/// Each running total is bounded by the largest possible bond times the count.
proof fn lemma_total_bond_bound(s: Seq<KeeperCandidate>)
    ensures
        total_bond(s) <= s.len() * (u64::MAX as nat),
    decreases s.len(),
{
    if s.len() > 0 {
        lemma_total_bond_bound(s.drop_last());
    }
}

/// Everything in the eligible sequence is a candidate whose bond meets the minimum.
proof fn lemma_eligible_members(cands: Seq<KeeperCandidate>, min_bond: u64)
    ensures
        eligible(cands, min_bond).len() <= cands.len(),
        forall|k: int|
            0 <= k < eligible(cands, min_bond).len() ==> cands.contains(
                #[trigger] eligible(cands, min_bond)[k],
            ) && eligible(cands, min_bond)[k].bond_amount >= min_bond,
    decreases cands.len(),
{
    if cands.len() > 0 {
        let init = cands.drop_last();
        lemma_eligible_members(init, min_bond);
        let rest = eligible(init, min_bond);
        assert forall|k: int| 0 <= k < rest.len() implies cands.contains(#[trigger] rest[k]) by {
            let j = choose|j: int| 0 <= j < init.len() && init[j] == rest[k];
            assert(cands[j] == rest[k]);
        }
        assert(cands[cands.len() - 1] == cands.last());
    }
}

/// A pick from index `i` is some element of `e` at or after `i`.
proof fn lemma_pick_from_member(e: Seq<KeeperCandidate>, target: int, i: int)
    ensures
        pick_from(e, target, i) matches Some(c) ==> exists|k: int| 0 <= k < e.len() && e[k] == c,
    decreases e.len() - i,
{
    if 0 <= i < e.len() && target >= total_bond(e.take(i + 1)) {
        lemma_pick_from_member(e, target, i + 1);
    }
}

/// A target below the full total always finds a candidate.
proof fn lemma_pick_from_some(e: Seq<KeeperCandidate>, target: int, i: int)
    requires
        0 <= i < e.len(),
        target < total_bond(e),
    ensures
        pick_from(e, target, i) is Some,
    decreases e.len() - i,
{
    if target >= total_bond(e.take(i + 1)) {
        if i + 1 < e.len() {
            lemma_pick_from_some(e, target, i + 1);
        } else {
            assert(e.take(i + 1) =~= e);
        }
    }
}

proof fn lemma_pick_window_from(e: Seq<KeeperCandidate>, target: int, i: int, j: int)
    requires
        0 <= j <= i < e.len(),
        total_bond(e.take(i)) <= target < total_bond(e.take(i + 1)),
    ensures
        pick_from(e, target, j) == Some(e[i]),
    decreases i - j,
{
    if j < i {
        lemma_total_bond_monotone(e, j + 1, i);
        lemma_pick_window_from(e, target, i, j + 1);
    }
}

/// The candidate at position `i` of the eligible sequence is picked for exactly the targets in
/// its window `[total before it, total through it)`: a window as wide as its bond.
pub proof fn lemma_pick_window(e: Seq<KeeperCandidate>, target: int, i: int)
    requires
        0 <= i < e.len(),
        total_bond(e.take(i)) <= target < total_bond(e.take(i + 1)),
    ensures
        pick_from(e, target, 0) == Some(e[i]),
        total_bond(e.take(i + 1)) == total_bond(e.take(i)) + e[i].bond_amount,
{
    lemma_pick_window_from(e, target, i, 0);
    lemma_take_drop_last(e, i + 1);
}

/// The leader, when there is one, is one of the candidates and meets the minimum bond; there
/// is one exactly when the eligible candidates have a positive total bond.
pub proof fn lemma_leader_is_eligible(cands: Seq<KeeperCandidate>, min_bond: u64, seed: u64)
    ensures
        leader_for_seed(cands, min_bond, seed) matches Some(c) ==> cands.contains(c)
            && c.bond_amount >= min_bond,
        leader_for_seed(cands, min_bond, seed) is Some <==> total_bond(eligible(cands, min_bond))
            > 0,
{
    let e = eligible(cands, min_bond);
    lemma_eligible_members(cands, min_bond);
    if e.len() > 0 && total_bond(e) > 0 {
        let t = seed as int % total_bond(e) as int;
        lemma_pick_from_member(e, t, 0);
        lemma_pick_from_some(e, t, 0);
        if let Some(c) = pick_from(e, t, 0) {
            let k = choose|k: int| 0 <= k < e.len() && e[k] == c;
            assert(cands.contains(e[k]));
        }
    }
    if e.len() == 0 {
        assert(total_bond(e) == 0);
    }
}

/// The candidates whose bond meets `min_bond`, in order.
fn eligible_candidates(candidates: &[KeeperCandidate], min_bond: u64) -> (e: Vec<KeeperCandidate>)
    ensures
        e@ == eligible(candidates@, min_bond),
{
    let mut e: Vec<KeeperCandidate> = Vec::new();
    let mut i: usize = 0;
    while i < candidates.len()
        invariant
            i <= candidates@.len(),
            e@ == eligible(candidates@.take(i as int), min_bond),
        decreases candidates@.len() - i,
    {
        proof {
            lemma_take_drop_last(candidates@, i + 1);
        }
        let c = candidates[i];
        if c.bond_amount >= min_bond {
            e.push(c);
        }
        i += 1;
    }
    assert(candidates@.take(candidates@.len() as int) =~= candidates@);
    e
}

/// The rotation seed for `(job_pubkey, slot)`: SHA-256 of the key followed by the slot's
/// little-endian bytes, first eight digest bytes read little-endian.
fn seed_for(job_pubkey: &[u8; 32], slot: u64) -> (seed: u64)
    ensures
        seed == rotation_seed(job_pubkey@, slot),
{
    let mut msg: Vec<u8> = Vec::new();
    let mut i: usize = 0;
    while i < 32
        invariant
            i <= 32,
            msg@ == job_pubkey@.take(i as int),
        decreases 32 - i,
    {
        msg.push(job_pubkey[i]);
        i += 1;
        assert(msg@ =~= job_pubkey@.take(i as int));
    }
    msg.push((slot & 0xff) as u8);
    msg.push(((slot >> 8u64) & 0xff) as u8);
    msg.push(((slot >> 16u64) & 0xff) as u8);
    msg.push(((slot >> 24u64) & 0xff) as u8);
    msg.push(((slot >> 32u64) & 0xff) as u8);
    msg.push(((slot >> 40u64) & 0xff) as u8);
    msg.push(((slot >> 48u64) & 0xff) as u8);
    msg.push(((slot >> 56u64) & 0xff) as u8);
    assert(msg@ =~= rotation_message(job_pubkey@, slot));
    let digest = sha256(msg.as_slice());
    let d = &digest;
    let seed = (d[0] as u64) | ((d[1] as u64) << 8u64) | ((d[2] as u64) << 16u64) | ((
    d[3] as u64) << 24u64) | ((d[4] as u64) << 32u64) | ((d[5] as u64) << 40u64) | ((
    d[6] as u64) << 48u64) | ((d[7] as u64) << 56u64);
    let ghost s = digest@.subrange(0, 8);
    assert(s[0] == d[0] && s[1] == d[1] && s[2] == d[2] && s[3] == d[3]);
    assert(s[4] == d[4] && s[5] == d[5] && s[6] == d[6] && s[7] == d[7]);
    seed
}

/// Pick the bond-weighted leader for a given rotation seed: the eligible candidate whose bond
/// window holds `seed` modulo the total eligible bond.
///
/// Returns `None` when no candidate meets `min_bond`, or when the eligible bonds sum to zero.
pub fn leader_from_seed(candidates: &[KeeperCandidate], min_bond: u64, seed: u64) -> (r: Option<
    KeeperCandidate,
>)
    ensures
        r == leader_for_seed(candidates@, min_bond, seed),
{
    let eligible_list = eligible_candidates(candidates, min_bond);
    if eligible_list.len() == 0 {
        return None;
    }
    let ghost e = eligible_list@;
    proof {
        lemma_eligible_members(candidates@, min_bond);
        lemma_total_bond_bound(e);
        assert(e.len() * (u64::MAX as nat) <= u128::MAX) by (nonlinear_arith)
            requires
                e.len() <= usize::MAX,
        ;
    }
    let mut total: u128 = 0;
    let mut i: usize = 0;
    while i < eligible_list.len()
        invariant
            e == eligible_list@,
            i <= e.len(),
            total == total_bond(e.take(i as int)),
            total_bond(e) <= u128::MAX,
        decreases e.len() - i,
    {
        proof {
            lemma_take_drop_last(e, i + 1);
            lemma_total_bond_monotone(e, i + 1, e.len() as int);
            assert(e.take(e.len() as int) =~= e);
        }
        total = total + eligible_list[i].bond_amount as u128;
        i += 1;
    }
    assert(e.take(e.len() as int) =~= e);
    if total == 0 {
        return None;
    }
    let target = (seed as u128) % total;
    let mut running: u128 = 0;
    let mut j: usize = 0;
    while j < eligible_list.len()
        invariant
            e == eligible_list@,
            e == eligible(candidates@, min_bond),
            e.len() > 0,
            j <= e.len(),
            running == total_bond(e.take(j as int)),
            total == total_bond(e),
            total_bond(e) <= u128::MAX,
            target < total,
            target == seed as int % total as int,
            pick_from(e, target as int, j as int) == pick_from(e, target as int, 0),
            target >= running,
        decreases e.len() - j,
    {
        proof {
            lemma_take_drop_last(e, j + 1);
            lemma_total_bond_monotone(e, j + 1, e.len() as int);
            assert(e.take(e.len() as int) =~= e);
        }
        running = running + eligible_list[j].bond_amount as u128;
        if target < running {
            assert(pick_from(e, target as int, j as int) == Some(e[j as int]));
            assert(leader_for_seed(candidates@, min_bond, seed) == pick_from(
                e,
                target as int,
                0,
            ));
            return Some(eligible_list[j]);
        }
        j += 1;
    }
    proof {
        assert(e.take(e.len() as int) =~= e);
    }
    Some(eligible_list[eligible_list.len() - 1])
}

/// Pick the bond-weighted leader for a given `(job, slot)` pair.
///
/// The rotation is deterministic: the leader is a function of the candidate list, the minimum
/// bond and the rotation seed, itself a function of `job_pubkey` and `slot`, so everyone who
/// sees the same bond set derives the same leader.
///
/// Returns `None` when no candidate meets `min_bond`.
pub fn weighted_leader(
    candidates: &[KeeperCandidate],
    min_bond: u64,
    job_pubkey: &[u8; 32],
    slot: u64,
) -> (r: Option<KeeperCandidate>)
    ensures
        r == leader_for_seed(candidates@, min_bond, rotation_seed(job_pubkey@, slot)),
{
    let eligible_list = eligible_candidates(candidates, min_bond);
    if eligible_list.len() == 0 {
        return None;
    }
    let seed = seed_for(job_pubkey, slot);
    leader_from_seed(candidates, min_bond, seed)
}

/// Eligibility is exactly the minimum bond: every candidate whose bond is at least `min_bond`
/// takes part in the rotation, and nothing else does.
pub proof fn lemma_eligible_exactly_min_bond(cands: Seq<KeeperCandidate>, min_bond: u64)
    ensures
        forall|k: int|
            0 <= k < cands.len() && cands[k].bond_amount >= min_bond ==> eligible(
                cands,
                min_bond,
            ).contains(#[trigger] cands[k]),
        forall|c: KeeperCandidate| #[trigger]
            eligible(cands, min_bond).contains(c) ==> cands.contains(c) && c.bond_amount
                >= min_bond,
    decreases cands.len(),
{
    lemma_eligible_members(cands, min_bond);
    if cands.len() > 0 {
        let init = cands.drop_last();
        lemma_eligible_exactly_min_bond(init, min_bond);
        let rest = eligible(init, min_bond);
        assert forall|k: int|
            0 <= k < cands.len() && cands[k].bond_amount >= min_bond implies eligible(
                cands,
                min_bond,
            ).contains(#[trigger] cands[k]) by {
            if k < cands.len() - 1 {
                assert(init[k] == cands[k]);
                let j = choose|j: int| 0 <= j < rest.len() && rest[j] == init[k];
                if cands.last().bond_amount >= min_bond {
                    assert(rest.push(cands.last())[j] == cands[k]);
                }
            } else {
                assert(cands[k] == cands.last());
                assert(rest.push(cands.last())[rest.len() as int] == cands[k]);
            }
        }
        assert forall|c: KeeperCandidate| #[trigger]
            eligible(cands, min_bond).contains(c) implies cands.contains(c) && c.bond_amount
                >= min_bond by {
            let e = eligible(cands, min_bond);
            let j = choose|j: int| 0 <= j < e.len() && e[j] == c;
        }
    }
}

/// A lone candidate whose bond is positive and meets the minimum leads for every seed.
pub proof fn lemma_lone_candidate_leads(c: KeeperCandidate, min_bond: u64, seed: u64)
    requires
        c.bond_amount >= min_bond,
        c.bond_amount > 0,
    ensures
        leader_for_seed(seq![c], min_bond, seed) == Some(c),
{
    let s = seq![c];
    assert(s.drop_last() =~= Seq::<KeeperCandidate>::empty());
    assert(s.last() == c);
    assert(eligible(s.drop_last(), min_bond) =~= Seq::<KeeperCandidate>::empty());
    assert(total_bond(s.drop_last()) == 0);
    assert(Seq::<KeeperCandidate>::empty().push(c) =~= s);
    assert(eligible(s, min_bond) =~= s);
    assert(s.take(1) =~= s);
    assert(total_bond(s) == c.bond_amount);
    let t = seed as int % total_bond(s) as int;
    assert(t < total_bond(s.take(1)));
}

} // verus!
