use vigyl::slash::{slash_eligible, split_slash};
use vigyl::VigylError;

#[test]
fn even_split_burns_and_pays() {
    let outcome = split_slash(1_000, 5_000, 5_000).unwrap();
    assert_eq!(outcome.burned, 500);
    assert_eq!(outcome.owner_reward, 500);
    assert_eq!(outcome.keeper_leftover, 0);
}

#[test]
fn slash_leaves_remainder_when_bps_sum_below_100() {
    let outcome = split_slash(1_000, 3_000, 3_000).unwrap();
    assert_eq!(outcome.burned, 300);
    assert_eq!(outcome.owner_reward, 300);
    assert_eq!(outcome.keeper_leftover, 400);
}

#[test]
fn oversized_bps_rejected() {
    let err = split_slash(1_000, 6_000, 6_000).unwrap_err();
    assert_eq!(err, VigylError::OutOfRange("burn_bps + owner_bps > 10000"));
}

#[test]
fn slash_only_after_timeout() {
    assert!(!slash_eligible(100, 120, 50));
    assert!(!slash_eligible(100, 150, 50));
    assert!(slash_eligible(100, 151, 50));
}

#[test]
fn split_rounds_each_share_down_and_conserves() {
    let bond = 999;
    let outcome = split_slash(bond, 3_333, 3_333).unwrap();
    assert_eq!(outcome.burned, 332);
    assert_eq!(outcome.owner_reward, 332);
    assert_eq!(outcome.keeper_leftover, 335);
    assert_eq!(outcome.burned + outcome.owner_reward + outcome.keeper_leftover, bond);
}

#[test]
fn split_of_max_bond() {
    let outcome = split_slash(u64::MAX, 10_000, 0).unwrap();
    assert_eq!(outcome.burned, u64::MAX);
    assert_eq!(outcome.owner_reward, 0);
    assert_eq!(outcome.keeper_leftover, 0);
    assert!(split_slash(u64::MAX, 10_000, 1).is_err());
    assert!(split_slash(0, u16::MAX, u16::MAX).is_err());
}

#[test]
fn eligibility_saturates_at_max_slot() {
    assert!(!slash_eligible(u64::MAX - 1, u64::MAX, 10));
    assert!(!slash_eligible(0, 0, 0));
    assert!(slash_eligible(0, 1, 0));
}
