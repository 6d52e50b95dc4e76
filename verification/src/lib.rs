//! Keeper network primitives.
//!
//! The pieces that both the on-chain program and the off-chain keeper daemon
//! consume: the trigger encodings, the bond-weighted rotation, the execution
//! proof record, slashing arithmetic and the priority-fee policy. Every
//! function states its behaviour as a contract over plain mathematical values.
use vstd::prelude::*;

pub mod arith;
pub mod bytes;
pub mod execution_proof;
pub mod executor;
pub mod hashing;
pub mod job;
pub mod keeper;
pub mod program;
pub mod slash;
pub mod trigger;

pub use execution_proof::{latency_slots, ExecutionProof};
pub use job::{Job, JobBudget, JobStatus};
pub use keeper::{weighted_leader, KeeperBond, KeeperCandidate};
pub use slash::{split_slash, SlashOutcome};

verus! {

/// Version tag for on-chain / off-chain compatibility checks.
pub const PROTOCOL_VERSION: u16 = 1;

/// Fixed size of the trigger data buffer on `Job::trigger_data`.
pub const TRIGGER_DATA_LEN: usize = 128;

/// Fixed size of the target instruction data buffer on `Job::target_ix_data`.
pub const TARGET_IX_DATA_LEN: usize = 512;

/// The result type of the crate's fallible operations.
pub type Result<T> = core::result::Result<T, VigylError>;

/// Common error type used across the crate.
#[derive(Debug, PartialEq, Eq)]
pub enum VigylError {
    Overflow,
    Underflow,
    OutOfRange(&'static str),
    InvalidTrigger(&'static str),
    InvalidCron(String),
    TargetTooLarge(usize),
    TimeoutNotReached,
    UnderBonded,
}

} // verus!
