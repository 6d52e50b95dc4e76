//! Account layouts of the on-chain program, with every public key held as its 32 bytes.
//!
//! These are the records the program stores; external SDKs and auditors pin against them.
use vstd::prelude::*;

verus! {

/// Global configuration shared across the program.
#[derive(Clone, Copy, Debug, Default, PartialEq, Eq)]
pub struct Config {
    pub authority: [u8; 32],
    pub treasury: [u8; 32],
    pub vigyl_mint: [u8; 32],
    pub min_keeper_bond: u64,
    pub execution_fee_bps: u16,
    pub slash_burn_bps: u16,
    pub slash_owner_bps: u16,
    pub job_registration_fee: u64,
    pub bond_unlock_seconds: i64,
    pub execution_timeout_slots: u64,
    pub bump: u8,
}

/// Aggregate counters for the whole registry.
#[derive(Clone, Copy, Debug, Default, PartialEq, Eq)]
pub struct JobRegistry {
    pub total_jobs: u64,
    pub total_keepers: u32,
    pub total_executions: u64,
    pub total_slashes: u32,
    pub total_bonded: u64,
    pub bump: u8,
}

/// A single job's on-chain record.
#[derive(Clone, Copy, Debug, PartialEq, Eq)]
pub struct Job {
    pub owner: [u8; 32],
    pub job_index: u64,
    pub trigger_type: u8,
    pub trigger_data: [u8; 128],
    pub target_program: [u8; 32],
    pub target_ix_data: [u8; 512],
    pub target_accounts_hash: [u8; 32],
    pub budget_lamports: u64,
    pub max_priority_fee_micro_lamports: u64,
    pub execution_count: u64,
    pub failure_count: u64,
    pub next_run_slot: u64,
    pub assigned_keeper: [u8; 32],
    pub assigned_at_slot: u64,
    pub is_paused: bool,
    pub bump: u8,
}

/// A keeper's bond record.
#[derive(Clone, Copy, Debug, Default, PartialEq, Eq)]
pub struct KeeperBond {
    pub keeper: [u8; 32],
    pub bond_amount: u64,
    pub bonded_at_slot: u64,
    pub active_jobs: u32,
    pub total_executions: u64,
    pub total_slashes: u32,
    pub is_unbonding: bool,
    pub unbond_request_slot: u64,
    pub bump: u8,
}

/// An execution proof issued after a successful (or explicitly failed) run.
#[derive(Clone, Copy, Debug, PartialEq, Eq)]
pub struct ExecutionProof {
    pub job: [u8; 32],
    pub keeper: [u8; 32],
    pub execution_index: u64,
    pub submitted_at_slot: u64,
    pub assigned_at_slot: u64,
    pub latency_slots: u32,
    pub priority_fee_used: u64,
    pub tx_signature: [u8; 64],
    pub success: bool,
    pub bump: u8,
}

/// Trigger discriminant tags kept in sync with the off-chain crate.
pub const TRIGGER_CRON: u8 = 0;

pub const TRIGGER_ACCOUNT_STATE: u8 = 1;

pub const TRIGGER_PRICE_THRESHOLD: u8 = 2;

pub const TRIGGER_SLOT_EPOCH: u8 = 3;

/// The program's error surface.
#[derive(Clone, Copy, Debug, PartialEq, Eq)]
pub enum VigylError {
    Overflow,
    Underflow,
    Unauthorized,
    JobPaused,
    JobBudgetInsufficient,
    JobNotDue,
    KeeperUnderBonded,
    KeeperHasActiveJobs,
    UnbondNotReady,
    AlreadyAssigned,
    NotAssignedKeeper,
    InvalidTriggerType,
    InvalidTriggerData,
    PriorityFeeExceedsCap,
    SlashNotEligible,
}

} // verus!
