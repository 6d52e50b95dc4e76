use vigyl::execution_proof::{latency_slots, ExecutionProof};

#[test]
fn negative_latency_clamped_to_zero() {
    assert_eq!(latency_slots(100, 50), 0);
}

#[test]
fn latency_matches_arithmetic() {
    assert_eq!(latency_slots(100, 137), 37);
}

#[test]
fn proof_carries_signature_bytes() {
    let sig = [7u8; 64];
    let proof = ExecutionProof::new([0u8; 32], [1u8; 32], 0, 10, 15, 4200, sig, true).unwrap();
    assert_eq!(proof.latency_slots, 5);
    assert_eq!(proof.tx_signature[..], sig[..]);
}

#[test]
fn latency_clamped_to_u32_max() {
    assert_eq!(latency_slots(0, u64::MAX), u32::MAX as u64);
    assert_eq!(latency_slots(0, u32::MAX as u64 + 1), u32::MAX as u64);
    assert_eq!(latency_slots(7, u32::MAX as u64 + 7), u32::MAX as u64);
    let wide = ExecutionProof::new([0u8; 32], [1u8; 32], 3, 0, u64::MAX, 9, [0u8; 64], false)
        .unwrap();
    assert_eq!(wide.latency_slots, u32::MAX);
    assert_eq!(wide.execution_index, 3);
    assert_eq!(wide.priority_fee_used, 9);
    assert_eq!(wide.submitted_at_slot, u64::MAX);
    assert!(!wide.success);
}

#[test]
fn late_assignment_gives_zero_latency_proof() {
    let proof = ExecutionProof::new([2u8; 32], [3u8; 32], 1, 500, 400, 0, [1u8; 64], true).unwrap();
    assert_eq!(proof.latency_slots, 0);
    assert_eq!(proof.assigned_at_slot, 500);
    assert_eq!(proof.submitted_at_slot, 400);
}
