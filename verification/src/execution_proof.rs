//! The record a keeper posts after it lands the target instruction.
use vstd::prelude::*;

use crate::VigylError;

verus! {

/// The record a keeper posts after it lands the target instruction.
#[derive(Clone, Copy, Debug, PartialEq, Eq)]
pub struct ExecutionProof {
    pub job: [u8; 32],
    pub keeper: [u8; 32],
    pub execution_index: u64,
    pub assigned_at_slot: u64,
    pub submitted_at_slot: u64,
    pub latency_slots: u32,
    pub priority_fee_used: u64,
    pub tx_signature: [u8; 64],
    pub success: bool,
}

/// Slots between assignment and submission, clamped to `0..=u32::MAX`: zero when the
/// submission slot is not after the assignment slot, `u32::MAX` when the gap is wider.
pub open spec fn latency(assigned_slot: u64, submitted_slot: u64) -> int {
    if submitted_slot <= assigned_slot {
        0
    } else if submitted_slot - assigned_slot > u32::MAX {
        u32::MAX as int
    } else {
        submitted_slot - assigned_slot
    }
}

impl ExecutionProof {
    /// Build the proof record: every field as given, the latency clamped to
    /// `0..=u32::MAX`. It never fails.
    pub fn new(
        job: [u8; 32],
        keeper: [u8; 32],
        execution_index: u64,
        assigned_at_slot: u64,
        submitted_at_slot: u64,
        priority_fee_used: u64,
        tx_signature: [u8; 64],
        success: bool,
    ) -> (r: Result<Self, VigylError>)
        ensures
            r == Ok::<Self, VigylError>(
                ExecutionProof {
                    job,
                    keeper,
                    execution_index,
                    assigned_at_slot,
                    submitted_at_slot,
                    latency_slots: latency(assigned_at_slot, submitted_at_slot) as u32,
                    priority_fee_used,
                    tx_signature,
                    success,
                },
            ),
    {
        let latency = latency_slots(assigned_at_slot, submitted_at_slot);
        Ok(
            ExecutionProof {
                job,
                keeper,
                execution_index,
                assigned_at_slot,
                submitted_at_slot,
                latency_slots: latency as u32,
                priority_fee_used,
                tx_signature,
                success,
            },
        )
    }
}

/// Slots between assignment and submission, clamped to `0..=u32::MAX`.
pub fn latency_slots(assigned_slot: u64, submitted_slot: u64) -> (l: u64)
    ensures
        l == latency(assigned_slot, submitted_slot),
{
    let gap = submitted_slot.saturating_sub(assigned_slot);
    if gap > u32::MAX as u64 {
        u32::MAX as u64
    } else {
        gap
    }
}

/// Latency is never above `u32::MAX`, is zero when the submission is not after the
/// assignment, and is otherwise the exact number of slots between the two whenever that fits
/// in 32 bits.
pub proof fn lemma_latency_bounds(assigned_slot: u64, submitted_slot: u64)
    ensures
        0 <= latency(assigned_slot, submitted_slot) <= u32::MAX,
        submitted_slot <= assigned_slot ==> latency(assigned_slot, submitted_slot) == 0,
        assigned_slot <= submitted_slot <= assigned_slot + u32::MAX ==> latency(
            assigned_slot,
            submitted_slot,
        ) == submitted_slot - assigned_slot,
        submitted_slot > assigned_slot + u32::MAX ==> latency(assigned_slot, submitted_slot)
            == u32::MAX,
{
}

} // verus!
