use vigyl::job::{Job, JobBudget, JobStatus};
use vigyl::VigylError;

fn zeros() -> [u8; 32] {
    [0u8; 32]
}

fn budget() -> JobBudget {
    JobBudget {
        budget_lamports: 1_000_000,
        max_priority_fee_micro_lamports: 5_000,
        max_failures_before_pause: 3,
        current_failures: 0,
    }
}

#[test]
fn success_decrements_budget_and_counts() {
    let mut job = Job::new(zeros(), 0, 0, vec![0u8; 40], zeros(), vec![], zeros(), budget()).unwrap();
    job.record_success(1000).unwrap();
    assert_eq!(job.execution_count, 1);
    assert_eq!(job.budget.budget_lamports, 999_000);
}

#[test]
fn repeated_failures_pause_the_job() {
    let mut job = Job::new(zeros(), 0, 0, vec![0u8; 40], zeros(), vec![], zeros(), budget()).unwrap();
    job.record_failure(100).unwrap();
    job.record_failure(100).unwrap();
    assert!(job.is_active());
    job.record_failure(100).unwrap();
    assert!(!job.is_active());
}

#[test]
fn trigger_data_over_128_bytes_rejected() {
    let err = Job::new(zeros(), 0, 0, vec![0u8; 129], zeros(), vec![], zeros(), budget()).unwrap_err();
    assert_eq!(err, VigylError::InvalidTrigger("trigger_data > 128 bytes"));
}

#[test]
fn target_data_over_512_bytes_rejected() {
    let err = Job::new(zeros(), 0, 0, vec![], zeros(), vec![1u8; 513], zeros(), budget()).unwrap_err();
    assert_eq!(err, VigylError::TargetTooLarge(513));
}

#[test]
fn unknown_trigger_type_rejected() {
    let err = Job::new(zeros(), 0, 4, vec![], zeros(), vec![], zeros(), budget()).unwrap_err();
    assert_eq!(err, VigylError::InvalidTrigger("trigger_type > 3"));
}

#[test]
fn trigger_data_check_comes_first() {
    let err = Job::new(zeros(), 0, 9, vec![0u8; 200], zeros(), vec![0u8; 600], zeros(), budget())
        .unwrap_err();
    assert_eq!(err, VigylError::InvalidTrigger("trigger_data > 128 bytes"));
}

#[test]
fn new_job_is_active_and_unassigned() {
    let job = Job::new([5u8; 32], 7, 3, vec![0u8; 128], [6u8; 32], vec![1u8; 512], [7u8; 32], budget())
        .unwrap();
    assert_eq!(job.status, JobStatus::Active);
    assert_eq!(job.assigned_keeper, None);
    assert_eq!(job.execution_count, 0);
    assert_eq!(job.next_run_slot, 0);
    assert_eq!(job.job_index, 7);
    assert!(job.is_due(0));
}

#[test]
fn charge_beyond_budget_saturates_at_zero() {
    let b = budget();
    let over = b.charge(1_000_001).unwrap();
    assert_eq!(over.budget_lamports, 0);
    assert_eq!(over.current_failures, b.current_failures);
    assert_eq!(b.charge(1_000_000).unwrap().budget_lamports, 0);
    assert_eq!(b.charge(1).unwrap().budget_lamports, 999_999);
}

#[test]
fn charges_compose() {
    let b = budget();
    let twice = b.charge(300).unwrap().charge(700).unwrap();
    let once = b.charge(1_000).unwrap();
    assert_eq!(twice, once);
}

#[test]
fn failure_count_increment_is_checked() {
    let mut b = budget();
    assert_eq!(b.record_failure().unwrap().current_failures, 1);
    b.current_failures = u32::MAX;
    assert_eq!(b.record_failure(), Err(VigylError::Overflow));
    assert!(b.should_pause_after_failure());
}

#[test]
fn failure_at_full_count_overflows_after_charging() {
    let mut b = budget();
    b.current_failures = u32::MAX;
    let mut job = Job::new(zeros(), 0, 0, vec![], zeros(), vec![], zeros(), b).unwrap();
    job.assign([9u8; 32], 44);
    assert_eq!(job.record_failure(100), Err(VigylError::Overflow));
    assert_eq!(job.budget.budget_lamports, 999_900);
    assert_eq!(job.budget.current_failures, u32::MAX);
    assert_eq!(job.status, JobStatus::Active);
    assert_eq!(job.assigned_keeper, Some([9u8; 32]));
}

#[test]
fn overdrawn_failure_charges_to_zero_and_counts() {
    let mut job = Job::new(zeros(), 0, 0, vec![], zeros(), vec![], zeros(), budget()).unwrap();
    job.assign([9u8; 32], 44);
    assert_eq!(job.record_failure(2_000_000), Ok(()));
    assert_eq!(job.budget.budget_lamports, 0);
    assert_eq!(job.budget.current_failures, 1);
    assert_eq!(job.status, JobStatus::Active);
    assert_eq!(job.assigned_keeper, None);
    assert_eq!(job.assigned_at_slot, 0);
}

#[test]
fn overdrawn_success_charges_to_zero_and_counts() {
    let mut job = Job::new(zeros(), 0, 0, vec![], zeros(), vec![], zeros(), budget()).unwrap();
    job.assign([9u8; 32], 44);
    assert_eq!(job.record_success(2_000_000), Ok(()));
    assert_eq!(job.execution_count, 1);
    assert_eq!(job.budget.budget_lamports, 0);
    assert_eq!(job.assigned_keeper, None);
    assert_eq!(job.assigned_at_slot, 0);
}

#[test]
fn success_overflow_leaves_job_unchanged() {
    let mut job = Job::new(zeros(), 0, 0, vec![], zeros(), vec![], zeros(), budget()).unwrap();
    job.execution_count = u64::MAX;
    let before = job.clone();
    assert_eq!(job.record_success(1), Err(VigylError::Overflow));
    assert_eq!(job, before);
}

#[test]
fn assignment_blocks_due_and_clears() {
    let mut job = Job::new(zeros(), 0, 0, vec![], zeros(), vec![], zeros(), budget()).unwrap();
    job.next_run_slot = 10;
    assert!(!job.is_due(9));
    assert!(job.is_due(10));
    job.assign([3u8; 32], 12);
    assert!(!job.is_due(20));
    assert_eq!(job.assigned_at_slot, 12);
    job.clear_assignment();
    assert_eq!(job.assigned_keeper, None);
    assert_eq!(job.assigned_at_slot, 0);
    assert!(job.is_due(20));
}

#[test]
fn pause_then_resume_reactivates() {
    let mut job = Job::new(zeros(), 0, 0, vec![], zeros(), vec![], zeros(), budget()).unwrap();
    job.pause();
    assert_eq!(job.status, JobStatus::Paused);
    assert!(!job.is_due(100));
    job.resume();
    assert_eq!(job.status, JobStatus::Active);
}

#[test]
fn resume_leaves_cancelled_job() {
    let mut job = Job::new(zeros(), 0, 0, vec![], zeros(), vec![], zeros(), budget()).unwrap();
    job.status = JobStatus::Cancelled;
    job.resume();
    assert_eq!(job.status, JobStatus::Cancelled);
}

#[test]
fn zero_failure_threshold_pauses_at_first_failure() {
    let mut b = budget();
    b.max_failures_before_pause = 0;
    let mut job = Job::new(zeros(), 0, 0, vec![], zeros(), vec![], zeros(), b).unwrap();
    job.record_failure(0).unwrap();
    assert_eq!(job.status, JobStatus::Paused);
    assert_eq!(job.budget.current_failures, 1);
}
