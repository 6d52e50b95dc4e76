//! Scheduled jobs: budget accounting and the lifecycle shared by program and daemon.
use vstd::prelude::*;

use crate::{VigylError, TARGET_IX_DATA_LEN, TRIGGER_DATA_LEN};

verus! {

/// The subset of [`Job`] state the off-chain daemon needs to compute the next fire.
#[derive(Clone, Copy, Debug, PartialEq, Eq)]
pub struct JobBudget {
    pub budget_lamports: u64,
    pub max_priority_fee_micro_lamports: u64,
    pub max_failures_before_pause: u32,
    pub current_failures: u32,
}

/// The budget after paying `cost`: the balance drops by the cost, and stops at zero when the
/// cost exceeds it.
pub open spec fn charged(b: JobBudget, cost: u64) -> JobBudget {
    JobBudget {
        budget_lamports: if cost >= b.budget_lamports {
            0
        } else {
            (b.budget_lamports - cost) as u64
        },
        ..b
    }
}

/// The budget after one more failure, when the failure count is below `u32::MAX`.
pub open spec fn with_failure(b: JobBudget) -> JobBudget {
    JobBudget { current_failures: (b.current_failures + 1) as u32, ..b }
}

/// Whether the failures seen so far reach the pause threshold.
pub open spec fn pause_due(b: JobBudget) -> bool {
    b.current_failures >= b.max_failures_before_pause
}

impl JobBudget {
    /// Pay `cost` out of the budget. The decrement saturates: a cost beyond the balance
    /// leaves a zero balance. Nothing but the lamport balance changes, and it never fails.
    pub fn charge(self, cost: u64) -> (r: Result<Self, VigylError>)
        ensures
            r == Ok::<Self, VigylError>(charged(self, cost)),
    {
        let mut b = self;
        b.budget_lamports = b.budget_lamports.saturating_sub(cost);
        Ok(b)
    }

    /// Count one more failure. The increment is checked: fails with `Overflow` exactly when
    /// the failure count is already `u32::MAX`.
    pub fn record_failure(self) -> (r: Result<Self, VigylError>)
        ensures
            self.current_failures == u32::MAX ==> r == Err::<Self, VigylError>(
                VigylError::Overflow,
            ),
            self.current_failures < u32::MAX ==> r == Ok::<Self, VigylError>(with_failure(self)),
    {
        let mut b = self;
        b.current_failures = match b.current_failures.checked_add(1) {
            Some(n) => n,
            None => return Err(VigylError::Overflow),
        };
        Ok(b)
    }

    /// Whether the failure count has reached the pause threshold.
    pub fn should_pause_after_failure(&self) -> (b: bool)
        ensures
            b == pause_due(*self),
    {
        self.current_failures >= self.max_failures_before_pause
    }
}

/// Lifecycle of a job as tracked on-chain and mirrored off-chain.
#[derive(Clone, Copy, Debug, PartialEq, Eq)]
pub enum JobStatus {
    Active,
    Paused,
    Cancelled,
}

/// Represents a scheduled job in the format shared between on-chain and off-chain code.
#[derive(Clone, Debug, PartialEq, Eq)]
pub struct Job {
    pub owner: [u8; 32],
    pub job_index: u64,
    pub trigger_type: u8,
    pub trigger_data: Vec<u8>,
    pub target_program: [u8; 32],
    pub target_ix_data: Vec<u8>,
    pub target_accounts_hash: [u8; 32],
    pub budget: JobBudget,
    pub execution_count: u64,
    pub next_run_slot: u64,
    pub assigned_keeper: Option<[u8; 32]>,
    pub assigned_at_slot: u64,
    pub status: JobStatus,
}

/// Whether the job fires for a keeper at `current_slot`: active, unassigned and at or past its
/// next run slot.
pub open spec fn job_due(j: Job, current_slot: u64) -> bool {
    &&& j.status == JobStatus::Active
    &&& j.assigned_keeper is None
    &&& current_slot >= j.next_run_slot
}

/// The job with its assignment removed.
pub open spec fn unassigned(j: Job) -> Job {
    Job { assigned_keeper: None, assigned_at_slot: 0, ..j }
}

/// The job assigned to `keeper` at `slot`.
pub open spec fn assigned(j: Job, keeper: [u8; 32], slot: u64) -> Job {
    Job { assigned_keeper: Some(keeper), assigned_at_slot: slot, ..j }
}

/// The job after a successful run that cost `cost`, when the counter allows it.
pub open spec fn after_success(j: Job, cost: u64) -> Job {
    unassigned(
        Job { execution_count: (j.execution_count + 1) as u64, budget: charged(j.budget, cost), ..j },
    )
}

/// The job after a failed run that cost `cost`, when the failure count is below `u32::MAX`:
/// it pauses once its failure count reaches the threshold.
pub open spec fn after_failure(j: Job, cost: u64) -> Job {
    let b = with_failure(charged(j.budget, cost));
    unassigned(
        Job {
            budget: b,
            status: if pause_due(b) {
                JobStatus::Paused
            } else {
                j.status
            },
            ..j
        },
    )
}

/// The job after `pause`.
pub open spec fn paused(j: Job) -> Job {
    Job { status: JobStatus::Paused, ..j }
}

/// The job after `resume`: a paused job becomes active, any other stays as it is.
pub open spec fn resumed(j: Job) -> Job {
    if j.status == JobStatus::Paused {
        Job { status: JobStatus::Active, ..j }
    } else {
        j
    }
}

impl Job {
    /// Build a fresh, active, unassigned job. Fails, in this order of checks, with
    /// `InvalidTrigger("trigger_data > 128 bytes")` when the trigger data exceeds 128 bytes,
    /// `TargetTooLarge(len)` when the target instruction data exceeds 512 bytes, and
    /// `InvalidTrigger("trigger_type > 3")` when the trigger type is unknown.
    pub fn new(
        owner: [u8; 32],
        job_index: u64,
        trigger_type: u8,
        trigger_data: Vec<u8>,
        target_program: [u8; 32],
        target_ix_data: Vec<u8>,
        target_accounts_hash: [u8; 32],
        budget: JobBudget,
    ) -> (r: Result<Self, VigylError>)
        ensures
            trigger_data@.len() > 128 ==> r == Err::<Self, VigylError>(
                VigylError::InvalidTrigger("trigger_data > 128 bytes"),
            ),
            trigger_data@.len() <= 128 && target_ix_data@.len() > 512 ==> r == Err::<
                Self,
                VigylError,
            >(VigylError::TargetTooLarge(target_ix_data@.len() as usize)),
            trigger_data@.len() <= 128 && target_ix_data@.len() <= 512 && trigger_type > 3 ==> r
                == Err::<Self, VigylError>(VigylError::InvalidTrigger("trigger_type > 3")),
            trigger_data@.len() <= 128 && target_ix_data@.len() <= 512 && trigger_type <= 3 ==> r
                == Ok::<Self, VigylError>(
                Job {
                    owner,
                    job_index,
                    trigger_type,
                    trigger_data,
                    target_program,
                    target_ix_data,
                    target_accounts_hash,
                    budget,
                    execution_count: 0,
                    next_run_slot: 0,
                    assigned_keeper: None,
                    assigned_at_slot: 0,
                    status: JobStatus::Active,
                },
            ),
    {
        if trigger_data.len() > TRIGGER_DATA_LEN {
            return Err(VigylError::InvalidTrigger("trigger_data > 128 bytes"));
        }
        if target_ix_data.len() > TARGET_IX_DATA_LEN {
            return Err(VigylError::TargetTooLarge(target_ix_data.len()));
        }
        if trigger_type > 3 {
            return Err(VigylError::InvalidTrigger("trigger_type > 3"));
        }
        Ok(
            Job {
                owner,
                job_index,
                trigger_type,
                trigger_data,
                target_program,
                target_ix_data,
                target_accounts_hash,
                budget,
                execution_count: 0,
                next_run_slot: 0,
                assigned_keeper: None,
                assigned_at_slot: 0,
                status: JobStatus::Active,
            },
        )
    }

    pub fn is_active(&self) -> (b: bool)
        ensures
            b == (self.status == JobStatus::Active),
    {
        match self.status {
            JobStatus::Active => true,
            _ => false,
        }
    }

    pub fn is_due(&self, current_slot: u64) -> (b: bool)
        ensures
            b == job_due(*self, current_slot),
    {
        self.is_active() && self.assigned_keeper.is_none() && current_slot >= self.next_run_slot
    }

    pub fn assign(&mut self, keeper: [u8; 32], slot: u64)
        ensures
            *final(self) == assigned(*old(self), keeper, slot),
    {
        self.assigned_keeper = Some(keeper);
        self.assigned_at_slot = slot;
    }

    pub fn clear_assignment(&mut self)
        ensures
            *final(self) == unassigned(*old(self)),
    {
        self.assigned_keeper = None;
        self.assigned_at_slot = 0;
    }

    /// Count a successful run, pay its cost (the budget saturating at zero) and clear the
    /// assignment. Fails with `Overflow`, the job unchanged, exactly when the execution counter
    /// is full.
    pub fn record_success(&mut self, cost: u64) -> (r: Result<(), VigylError>)
        ensures
            old(self).execution_count == u64::MAX ==> r == Err::<(), VigylError>(
                VigylError::Overflow,
            ) && *final(self) == *old(self),
            old(self).execution_count < u64::MAX ==> r == Ok::<(), VigylError>(()) && *final(self)
                == after_success(*old(self), cost),
    {
        self.execution_count = match self.execution_count.checked_add(1) {
            Some(c) => c,
            None => return Err(VigylError::Overflow),
        };
        self.budget = match self.budget.charge(cost) {
            Ok(b) => b,
            Err(e) => return Err(e),
        };
        self.clear_assignment();
        Ok(())
    }

    /// Pay the cost of a failed run (the budget saturating at zero), count the failure, pause
    /// the job once the failure threshold is reached and clear the assignment. Fails with
    /// `Overflow` exactly when the failure count is already `u32::MAX`; the cost has then been
    /// charged and nothing else changed.
    pub fn record_failure(&mut self, cost: u64) -> (r: Result<(), VigylError>)
        ensures
            old(self).budget.current_failures == u32::MAX ==> r == Err::<(), VigylError>(
                VigylError::Overflow,
            ) && *final(self) == (Job { budget: charged(old(self).budget, cost), ..*old(self) }),
            old(self).budget.current_failures < u32::MAX ==> r == Ok::<(), VigylError>(())
                && *final(self) == after_failure(*old(self), cost),
    {
        self.budget = match self.budget.charge(cost) {
            Ok(b) => b,
            Err(e) => return Err(e),
        };
        self.budget = match self.budget.record_failure() {
            Ok(b) => b,
            Err(e) => return Err(e),
        };
        if self.budget.should_pause_after_failure() {
            self.status = JobStatus::Paused;
        }
        self.clear_assignment();
        Ok(())
    }

    pub fn pause(&mut self)
        ensures
            *final(self) == paused(*old(self)),
    {
        self.status = JobStatus::Paused;
    }

    pub fn resume(&mut self)
        ensures
            *final(self) == resumed(*old(self)),
    {
        if let JobStatus::Paused = self.status {
            self.status = JobStatus::Active;
        }
    }
}

/// Pausing then resuming leaves an active job, with every other field as before.
pub proof fn lemma_pause_then_resume(j: Job)
    ensures
        resumed(paused(j)) == (Job { status: JobStatus::Active, ..j }),
{
}

/// A job that is assigned is not due; clearing the assignment forgets the assignment
/// altogether.
pub proof fn lemma_assignment_blocks_due(j: Job, keeper: [u8; 32], slot: u64, current_slot: u64)
    ensures
        !job_due(assigned(j, keeper, slot), current_slot),
        unassigned(assigned(j, keeper, slot)) == unassigned(j),
{
}

/// A failed run that brings the failure count to the threshold pauses the job; one that does
/// not leaves the status as it was.
pub proof fn lemma_failure_threshold_pauses(j: Job, cost: u64)
    requires
        j.budget.current_failures < u32::MAX,
    ensures
        pause_due(with_failure(charged(j.budget, cost))) ==> after_failure(j, cost).status
            == JobStatus::Paused,
        !pause_due(with_failure(charged(j.budget, cost))) ==> after_failure(j, cost).status
            == j.status,
{
}

/// Charging twice is charging the sum once (the sum fitting in 64 bits); a charge never
/// raises the balance.
pub proof fn lemma_charges_compose(b: JobBudget, c1: u64, c2: u64)
    requires
        c1 + c2 <= u64::MAX,
    ensures
        charged(charged(b, c1), c2) == charged(b, (c1 + c2) as u64),
        charged(b, c1).budget_lamports <= b.budget_lamports,
{
}

/// A failed run charges its cost once, the balance stopping at zero, counts exactly one more
/// failure, pauses the job exactly when the new count reaches the threshold, clears the
/// assignment and leaves the execution count and the limits as they were.
pub proof fn lemma_failure_accounting(j: Job, cost: u64)
    requires
        j.budget.current_failures < u32::MAX,
    ensures
        after_failure(j, cost).budget.budget_lamports == if cost >= j.budget.budget_lamports {
            0
        } else {
            j.budget.budget_lamports - cost
        },
        after_failure(j, cost).budget.current_failures == j.budget.current_failures + 1,
        after_failure(j, cost).budget.max_failures_before_pause
            == j.budget.max_failures_before_pause,
        after_failure(j, cost).budget.max_priority_fee_micro_lamports
            == j.budget.max_priority_fee_micro_lamports,
        after_failure(j, cost).status == if j.budget.current_failures + 1
            >= j.budget.max_failures_before_pause {
            JobStatus::Paused
        } else {
            j.status
        },
        after_failure(j, cost).execution_count == j.execution_count,
        after_failure(j, cost).next_run_slot == j.next_run_slot,
        after_failure(j, cost).assigned_keeper is None,
        after_failure(j, cost).assigned_at_slot == 0,
{
}

/// A successful run charges its cost once, the balance stopping at zero, counts exactly one
/// more execution, clears the assignment and leaves the failure count and the status as they
/// were.
pub proof fn lemma_success_accounting(j: Job, cost: u64)
    requires
        j.execution_count < u64::MAX,
    ensures
        after_success(j, cost).budget.budget_lamports == if cost >= j.budget.budget_lamports {
            0
        } else {
            j.budget.budget_lamports - cost
        },
        after_success(j, cost).execution_count == j.execution_count + 1,
        after_success(j, cost).budget.current_failures == j.budget.current_failures,
        after_success(j, cost).budget.max_failures_before_pause
            == j.budget.max_failures_before_pause,
        after_success(j, cost).status == j.status,
        after_success(j, cost).next_run_slot == j.next_run_slot,
        after_success(j, cost).assigned_keeper is None,
        after_success(j, cost).assigned_at_slot == 0,
{
}

/// A job is due exactly when it is active, nobody holds it, and the current slot has reached
/// its next run slot.
pub proof fn lemma_due_exactly(j: Job, current_slot: u64)
    ensures
        job_due(j, current_slot) <==> (j.status == JobStatus::Active && j.assigned_keeper is None
            && j.next_run_slot <= current_slot),
{
}

} // verus!
