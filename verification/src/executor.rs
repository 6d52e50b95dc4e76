//! Priority-fee policy for broadcasting the target instruction.
use vstd::prelude::*;

use crate::arith::{saturating_mul_spec, saturating_mul_u64};
use crate::VigylError;

verus! {

/// Priority-fee levels the daemon may attempt, coarsely mapping to fee-market percentiles.
#[derive(Clone, Copy, Debug, PartialEq, Eq)]
pub struct PriorityFeeBands {
    pub p50: u32,
    pub p75: u32,
    pub p95: u32,
}

/// The compute-unit price picked for `attempt`: `p75` on the first attempt, then `p95` times
/// the attempt number plus one (saturating), capped by `max_micro_lamports` and by
/// `u32::MAX`.
pub open spec fn chosen_price(
    bands: PriorityFeeBands,
    attempt: u32,
    max_micro_lamports: u64,
) -> u32 {
    let base: u64 = if attempt == 0 {
        bands.p75 as u64
    } else {
        bands.p95 as u64
    };
    let scaled = saturating_mul_spec(base, (1 + attempt) as u64);
    let capped = if scaled < max_micro_lamports {
        scaled
    } else {
        max_micro_lamports
    };
    if capped < u32::MAX as u64 {
        capped as u32
    } else {
        u32::MAX
    }
}

/// `micro_lamports_per_cu * compute_unit_limit / 1_000_000`, rounded up.
pub open spec fn fee_lamports(micro_lamports_per_cu: u32, compute_unit_limit: u32) -> int {
    (micro_lamports_per_cu * compute_unit_limit + 999_999) / 1_000_000
}

/// The base fee of one signature, in lamports.
pub const BASE_SIGNATURE_FEE: u64 = 5_000;

impl Default for PriorityFeeBands {
    /// The default bands: 1 500, 4 000 and 25 000 micro-lamports per compute unit.
    fn default() -> (bands: Self)
        ensures
            bands == (PriorityFeeBands { p50: 1_500, p75: 4_000, p95: 25_000 }),
    {
        PriorityFeeBands { p50: 1_500, p75: 4_000, p95: 25_000 }
    }
}

impl PriorityFeeBands {
    /// Pick the compute-unit price for `attempt`.
    ///
    /// * `attempt = 0` -> `p75`
    /// * `attempt >= 1` -> `p95`, growing linearly per retry but capped by `max`
    pub fn choose_price(&self, attempt: u32, max_micro_lamports: u64) -> (price: u32)
        ensures
            price == chosen_price(*self, attempt, max_micro_lamports),
    {
        let base = if attempt == 0 {
            self.p75
        } else {
            self.p95
        };
        let scaled = saturating_mul_u64(base as u64, 1 + attempt as u64);
        let capped = if scaled < max_micro_lamports {
            scaled
        } else {
            max_micro_lamports
        };
        if capped < u32::MAX as u64 {
            capped as u32
        } else {
            u32::MAX
        }
    }
}

/// Convert `micro_lamports/CU * cu_limit` to a rounded-up lamport fee.
pub fn priority_fee_lamports(micro_lamports_per_cu: u32, compute_unit_limit: u32) -> (fee: u64)
    ensures
        fee == fee_lamports(micro_lamports_per_cu, compute_unit_limit),
{
    let a = micro_lamports_per_cu as u128;
    let b = compute_unit_limit as u128;
    assert(a * b <= 0xffff_ffff * 0xffff_ffff) by (nonlinear_arith)
        requires
            a <= 0xffff_ffff,
            b <= 0xffff_ffff,
    ;
    let product = a * b;
    ((product + 999_999) / 1_000_000) as u64
}

/// Full transaction cost = priority fee + base signature fee (5000 lamports).
pub fn total_cost(micro_lamports_per_cu: u32, compute_unit_limit: u32) -> (cost: u64)
    ensures
        cost == fee_lamports(micro_lamports_per_cu, compute_unit_limit) + 5_000,
{
    let fee = priority_fee_lamports(micro_lamports_per_cu, compute_unit_limit);
    assert(fee <= 18_446_744_073_710) by (nonlinear_arith)
        requires
            fee == fee_lamports(micro_lamports_per_cu, compute_unit_limit),
            micro_lamports_per_cu <= 0xffff_ffff,
            compute_unit_limit <= 0xffff_ffff,
    ;
    fee.saturating_add(BASE_SIGNATURE_FEE)
}

/// Guard: enforce the job's per-CU cap before broadcasting. Fails with
/// `OutOfRange("priority_fee > job.max_priority_fee")` exactly when the price exceeds the cap.
pub fn enforce_cap(applied_cu_price: u32, cap: u64) -> (r: Result<(), VigylError>)
    ensures
        applied_cu_price > cap ==> r == Err::<(), VigylError>(
            VigylError::OutOfRange("priority_fee > job.max_priority_fee"),
        ),
        applied_cu_price <= cap ==> r == Ok::<(), VigylError>(()),
{
    if (applied_cu_price as u64) > cap {
        return Err(VigylError::OutOfRange("priority_fee > job.max_priority_fee"));
    }
    Ok(())
}

/// The chosen price never exceeds the cap: not the caller's maximum, not `u32::MAX`.
pub proof fn lemma_choose_within_cap(bands: PriorityFeeBands, attempt: u32, max_micro_lamports: u64)
    ensures
        chosen_price(bands, attempt, max_micro_lamports) <= max_micro_lamports,
        attempt == 0 ==> chosen_price(bands, attempt, max_micro_lamports) == if bands.p75
            <= max_micro_lamports {
            bands.p75 as u64
        } else {
            max_micro_lamports
        },
{
    let p75 = bands.p75 as u64;
    assert(p75 * 1 == p75);
    assert(((1 + 0u32) as u64) == 1);
}

/// Later retries never pick a lower price than earlier ones.
pub proof fn lemma_choose_grows_with_retries(
    bands: PriorityFeeBands,
    a: u32,
    b: u32,
    max_micro_lamports: u64,
)
    requires
        1 <= a <= b,
    ensures
        chosen_price(bands, a, max_micro_lamports) <= chosen_price(bands, b, max_micro_lamports),
{
    assert((bands.p95 as u64) * ((1 + a) as u64) <= (bands.p95 as u64) * ((1 + b) as u64))
        by (nonlinear_arith)
        requires
            a <= b,
    ;
}

/// The fee is rounded up: it covers the exact cost, by less than one lamport too much.
pub proof fn lemma_fee_rounds_up(micro_lamports_per_cu: u32, compute_unit_limit: u32)
    ensures
        fee_lamports(micro_lamports_per_cu, compute_unit_limit) * 1_000_000
            >= micro_lamports_per_cu * compute_unit_limit,
        fee_lamports(micro_lamports_per_cu, compute_unit_limit) * 1_000_000
            < micro_lamports_per_cu * compute_unit_limit + 1_000_000,
{
    let p = micro_lamports_per_cu * compute_unit_limit;
    assert(p >= 0) by (nonlinear_arith)
        requires
            p == micro_lamports_per_cu * compute_unit_limit,
            micro_lamports_per_cu >= 0,
            compute_unit_limit >= 0,
    ;
    assert(((p + 999_999) / 1_000_000) * 1_000_000 >= p && ((p + 999_999) / 1_000_000)
        * 1_000_000 < p + 1_000_000) by (nonlinear_arith)
        requires
            p >= 0,
    ;
}

/// Every retry after the first prices `p95` times the attempt number plus one, capped by the
/// caller's maximum and by `u32::MAX`.
pub proof fn lemma_retry_price(bands: PriorityFeeBands, attempt: u32, max_micro_lamports: u64)
    requires
        attempt >= 1,
    ensures
        chosen_price(bands, attempt, max_micro_lamports) as int == vstd::math::min(
            vstd::math::min(bands.p95 * (attempt + 1), max_micro_lamports as int),
            u32::MAX as int,
        ),
{
    let p = bands.p95 as int * (attempt as int + 1);
    assert(0 <= p <= 0xffff_ffff * 0x1_0000_0000) by (nonlinear_arith)
        requires
            p == bands.p95 as int * (attempt as int + 1),
            bands.p95 <= 0xffff_ffff,
            attempt <= 0xffff_ffff,
    ;
}

} // verus!
