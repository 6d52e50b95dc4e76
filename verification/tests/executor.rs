use vigyl::executor::{enforce_cap, priority_fee_lamports, total_cost, PriorityFeeBands};
use vigyl::VigylError;

#[test]
fn choose_walks_bands() {
    let bands = PriorityFeeBands::default();
    assert_eq!(bands.choose_price(0, 1_000_000), bands.p75);
    assert!(bands.choose_price(1, 1_000_000) >= bands.p95);
}

#[test]
fn choose_clamps_to_cap() {
    let bands = PriorityFeeBands::default();
    assert_eq!(bands.choose_price(0, 2_000), 2_000);
}

#[test]
fn fee_rounds_up() {
    assert_eq!(priority_fee_lamports(1_000, 200_000), 200);
    assert_eq!(priority_fee_lamports(1_500, 400_000), 600);
}

#[test]
fn cap_enforced() {
    assert!(enforce_cap(4_000, 5_000).is_ok());
    assert!(enforce_cap(6_000, 5_000).is_err());
}

#[test]
fn default_bands_values() {
    let bands = PriorityFeeBands::default();
    assert_eq!(bands.p50, 1_500);
    assert_eq!(bands.p75, 4_000);
    assert_eq!(bands.p95, 25_000);
}

#[test]
fn retries_grow_linearly_from_p95() {
    let bands = PriorityFeeBands::default();
    assert_eq!(bands.choose_price(1, 1_000_000), 50_000);
    assert_eq!(bands.choose_price(2, 1_000_000), 75_000);
    assert_eq!(bands.choose_price(3, 60_000), 60_000);
}

#[test]
fn choose_saturates_at_u32_max() {
    let bands = PriorityFeeBands { p50: 0, p75: u32::MAX, p95: u32::MAX };
    assert_eq!(bands.choose_price(0, u64::MAX), u32::MAX);
    assert_eq!(bands.choose_price(u32::MAX, u64::MAX), u32::MAX);
}

#[test]
fn fee_rounds_up_partial_lamport() {
    assert_eq!(priority_fee_lamports(1, 1), 1);
    assert_eq!(priority_fee_lamports(0, 1_000_000), 0);
    assert_eq!(priority_fee_lamports(1_000_001, 1), 2);
    assert_eq!(priority_fee_lamports(u32::MAX, u32::MAX), 18_446_744_065_120);
}

#[test]
fn total_cost_adds_signature_fee() {
    assert_eq!(total_cost(1_000, 200_000), 5_200);
    assert_eq!(total_cost(0, 0), 5_000);
}

#[test]
fn cap_error_variant() {
    assert_eq!(
        enforce_cap(5_001, 5_000),
        Err(VigylError::OutOfRange("priority_fee > job.max_priority_fee"))
    );
    assert_eq!(enforce_cap(5_000, 5_000), Ok(()));
}
