use sha2::{Digest, Sha256};
use vigyl::keeper::{leader_from_seed, weighted_leader, KeeperBond, KeeperCandidate};

fn keeper(byte: u8, bond: u64) -> KeeperCandidate {
    KeeperCandidate {
        keeper: [byte; 32],
        bond_amount: bond,
    }
}

#[test]
fn min_bond_filters_underbonded() {
    let cands = vec![keeper(1, 100), keeper(2, 999), keeper(3, 500)];
    let leader = weighted_leader(&cands, 500, &[7u8; 32], 42).unwrap();
    assert_ne!(leader.keeper, [1u8; 32]);
}

#[test]
fn heavier_bond_wins_more_often() {
    let cands = vec![keeper(1, 100), keeper(2, 900)];
    let mut heavy = 0;
    for slot in 0..1000 {
        let leader = weighted_leader(&cands, 0, &[7u8; 32], slot).unwrap();
        if leader.keeper == [2u8; 32] {
            heavy += 1;
        }
    }
    assert!(heavy > 800);
}

#[test]
fn deterministic_per_slot() {
    let cands = vec![keeper(1, 100), keeper(2, 100), keeper(3, 100)];
    let a = weighted_leader(&cands, 0, &[9u8; 32], 12345);
    let b = weighted_leader(&cands, 0, &[9u8; 32], 12345);
    assert_eq!(a, b);
}

#[test]
fn no_eligible_candidate_gives_none() {
    let cands = vec![keeper(1, 100), keeper(2, 200)];
    assert_eq!(weighted_leader(&cands, 201, &[7u8; 32], 1), None);
    assert_eq!(weighted_leader(&[], 0, &[7u8; 32], 1), None);
}

#[test]
fn zero_total_bond_gives_none() {
    let cands = vec![keeper(1, 0), keeper(2, 0)];
    assert_eq!(weighted_leader(&cands, 0, &[7u8; 32], 1), None);
    assert_eq!(leader_from_seed(&cands, 0, 12), None);
}

#[test]
fn seed_windows_follow_bond_order() {
    let cands = vec![keeper(1, 3), keeper(2, 5), keeper(3, 2)];
    let pick = |seed: u64| leader_from_seed(&cands, 0, seed).unwrap().keeper[0];
    assert_eq!(pick(0), 1);
    assert_eq!(pick(2), 1);
    assert_eq!(pick(3), 2);
    assert_eq!(pick(7), 2);
    assert_eq!(pick(8), 3);
    assert_eq!(pick(9), 3);
    assert_eq!(pick(10), 1);
    assert_eq!(pick(u64::MAX), [1, 1, 1, 2, 2, 2, 2, 2, 3, 3][(u64::MAX % 10) as usize]);
}

#[test]
fn underbonded_candidates_take_no_window() {
    let cands = vec![keeper(1, 100), keeper(2, 5), keeper(3, 100)];
    assert_eq!(leader_from_seed(&cands, 50, 99).unwrap().keeper[0], 1);
    assert_eq!(leader_from_seed(&cands, 50, 100).unwrap().keeper[0], 3);
}

#[test]
fn leader_uses_sha256_of_key_and_slot() {
    let cands = vec![keeper(1, 1), keeper(2, 1), keeper(3, 1), keeper(4, 1), keeper(5, 1)];
    let job = [9u8; 32];
    for slot in [0u64, 1, 42, 12345, u64::MAX] {
        let mut hasher = Sha256::new();
        hasher.update(job);
        hasher.update(slot.to_le_bytes());
        let digest = hasher.finalize();
        let seed = u64::from_le_bytes(digest[0..8].try_into().unwrap());
        assert_eq!(
            weighted_leader(&cands, 0, &job, slot),
            leader_from_seed(&cands, 0, seed)
        );
        assert_eq!(
            weighted_leader(&cands, 0, &job, slot).unwrap().keeper[0] as u64,
            seed % 5 + 1
        );
    }
}

#[test]
fn candidate_from_bond_keeps_key_and_amount() {
    let bond = KeeperBond {
        keeper: [4u8; 32],
        bond_amount: 77,
        active_jobs: 2,
        total_executions: 9,
        total_slashes: 1,
    };
    let c = KeeperCandidate::from_bond(&bond);
    assert_eq!(c, keeper(4, 77));
}
