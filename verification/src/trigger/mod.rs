//! Trigger encodings and evaluators.
use vstd::prelude::*;

pub mod account_state;
pub mod cron;
pub mod price_threshold;
pub mod slot_epoch;

pub use account_state::AccountStateTrigger;
pub use cron::CronSchedule;
pub use price_threshold::PriceThresholdTrigger;
pub use slot_epoch::SlotEpochTrigger;

verus! {

/// Discriminant tag of a cron trigger on `Job::trigger_type`.
pub const CRON: u8 = 0;

/// Discriminant tag of an account-state trigger on `Job::trigger_type`.
pub const ACCOUNT_STATE: u8 = 1;

/// Discriminant tag of a price-threshold trigger on `Job::trigger_type`.
pub const PRICE_THRESHOLD: u8 = 2;

/// Discriminant tag of a slot/epoch trigger on `Job::trigger_type`.
pub const SLOT_EPOCH: u8 = 3;

} // verus!
