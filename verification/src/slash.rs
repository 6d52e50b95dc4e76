//! Splitting a keeper's bond when it misses its execution window.
use vstd::prelude::*;

use crate::VigylError;

verus! {

/// Bond split when a keeper misses its execution window.
#[derive(Clone, Copy, Debug, PartialEq, Eq)]
pub struct SlashOutcome {
    pub burned: u64,
    pub owner_reward: u64,
    pub keeper_leftover: u64,
}

/// `value * bps / 10_000`, rounded down.
pub open spec fn bps_share(value: u64, bps: u16) -> int {
    (value * bps) / 10_000
}

/// The outcome of slashing `bond` with the given basis points, when their sum is at most
/// 10 000.
pub open spec fn slash_outcome(bond: u64, burn_bps: u16, owner_bps: u16) -> SlashOutcome {
    SlashOutcome {
        burned: bps_share(bond, burn_bps) as u64,
        owner_reward: bps_share(bond, owner_bps) as u64,
        keeper_leftover: (bond - bps_share(bond, burn_bps) - bps_share(bond, owner_bps)) as u64,
    }
}

/// Each share is at most the bond, and the two shares together never exceed it.
proof fn lemma_shares_fit(bond: u64, burn_bps: u16, owner_bps: u16)
    requires
        burn_bps + owner_bps <= 10_000,
    ensures
        0 <= bps_share(bond, burn_bps) <= bond,
        0 <= bps_share(bond, owner_bps) <= bond,
        bps_share(bond, burn_bps) + bps_share(bond, owner_bps) <= bond,
{
    let b = bond as int;
    let x = burn_bps as int;
    let y = owner_bps as int;
    assert(0 <= (b * x) / 10_000 && 0 <= (b * y) / 10_000) by (nonlinear_arith)
        requires
            b >= 0,
            x >= 0,
            y >= 0,
    ;
    assert((b * x) / 10_000 + (b * y) / 10_000 <= b) by (nonlinear_arith)
        requires
            b >= 0,
            x >= 0,
            y >= 0,
            x + y <= 10_000,
    {
        assert((b * x) / 10_000 * 10_000 <= b * x);
        assert((b * y) / 10_000 * 10_000 <= b * y);
        assert(b * x + b * y <= b * 10_000);
    }
}

/// Split `bond` between burn and owner reward according to the config bps values.
///
/// Fails with `OutOfRange("burn_bps + owner_bps > 10000")` exactly when the two basis-point
/// values sum to more than 10 000; otherwise each share is the bond times its basis points
/// over 10 000, rounded down, and the keeper keeps the rest.
pub fn split_slash(bond: u64, burn_bps: u16, owner_bps: u16) -> (r: Result<
    SlashOutcome,
    VigylError,
>)
    ensures
        burn_bps + owner_bps > 10_000 ==> r == Err::<SlashOutcome, VigylError>(
            VigylError::OutOfRange("burn_bps + owner_bps > 10000"),
        ),
        burn_bps + owner_bps <= 10_000 ==> r == Ok::<SlashOutcome, VigylError>(
            slash_outcome(bond, burn_bps, owner_bps),
        ),
{
    if (burn_bps as u32).saturating_add(owner_bps as u32) > 10_000 {
        return Err(VigylError::OutOfRange("burn_bps + owner_bps > 10000"));
    }
    proof {
        lemma_shares_fit(bond, burn_bps, owner_bps);
    }
    let burned = match mul_bps(bond, burn_bps) {
        Ok(v) => v,
        Err(e) => return Err(e),
    };
    let owner = match mul_bps(bond, owner_bps) {
        Ok(v) => v,
        Err(e) => return Err(e),
    };
    let total = match burned.checked_add(owner) {
        Some(t) => t,
        None => return Err(VigylError::Overflow),
    };
    let leftover = match bond.checked_sub(total) {
        Some(l) => l,
        None => return Err(VigylError::Underflow),
    };
    Ok(SlashOutcome { burned, owner_reward: owner, keeper_leftover: leftover })
}

/// `value * bps / 10_000` rounded down, truncated to 64 bits; the 128-bit product never
/// overflows.
fn mul_bps(value: u64, bps: u16) -> (r: Result<u64, VigylError>)
    ensures
        r == Ok::<u64, VigylError>(bps_share(value, bps) as u64),
{
    assert((value as u128) * (bps as u128) <= u128::MAX) by (nonlinear_arith)
        requires
            value <= u64::MAX,
            bps <= u16::MAX,
    ;
    let product = match (value as u128).checked_mul(bps as u128) {
        Some(p) => p,
        None => return Err(VigylError::Overflow),
    };
    Ok((product / 10_000) as u64)
}

/// Whether a keeper can be slashed: strictly after its assignment slot plus the timeout
/// (the sum saturating at `u64::MAX`).
pub fn slash_eligible(assigned_at_slot: u64, current_slot: u64, execution_timeout_slots: u64) -> (b:
    bool)
    ensures
        b == (current_slot > assigned_at_slot + execution_timeout_slots),
{
    current_slot > assigned_at_slot.saturating_add(execution_timeout_slots)
}

/// A slash loses nothing: burn, owner reward and leftover add up to the bond.
pub proof fn lemma_slash_conserves_bond(bond: u64, burn_bps: u16, owner_bps: u16)
    requires
        burn_bps + owner_bps <= 10_000,
    ensures
        slash_outcome(bond, burn_bps, owner_bps).burned + slash_outcome(
            bond,
            burn_bps,
            owner_bps,
        ).owner_reward + slash_outcome(bond, burn_bps, owner_bps).keeper_leftover == bond,
{
    lemma_shares_fit(bond, burn_bps, owner_bps);
}

/// Each share is the bond's basis-point fraction rounded down: `burned` is the largest amount
/// whose 10 000-fold is at most `bond * burn_bps`, and likewise `owner_reward` for
/// `owner_bps`; the keeper keeps what is left.
pub proof fn lemma_slash_shares_round_down(bond: u64, burn_bps: u16, owner_bps: u16)
    requires
        burn_bps + owner_bps <= 10_000,
    ensures
        slash_outcome(bond, burn_bps, owner_bps).burned * 10_000 <= bond * burn_bps,
        bond * burn_bps < (slash_outcome(bond, burn_bps, owner_bps).burned + 1) * 10_000,
        slash_outcome(bond, burn_bps, owner_bps).owner_reward * 10_000 <= bond * owner_bps,
        bond * owner_bps < (slash_outcome(bond, burn_bps, owner_bps).owner_reward + 1) * 10_000,
        slash_outcome(bond, burn_bps, owner_bps).keeper_leftover == bond - slash_outcome(
            bond,
            burn_bps,
            owner_bps,
        ).burned - slash_outcome(bond, burn_bps, owner_bps).owner_reward,
{
    lemma_shares_fit(bond, burn_bps, owner_bps);
    let x = bond * burn_bps;
    let y = bond * owner_bps;
    assert(x >= 0 && y >= 0) by (nonlinear_arith)
        requires
            x == bond * burn_bps,
            y == bond * owner_bps,
    ;
    assert((x / 10_000) * 10_000 <= x < (x / 10_000 + 1) * 10_000) by (nonlinear_arith)
        requires
            x >= 0,
    ;
    assert((y / 10_000) * 10_000 <= y < (y / 10_000 + 1) * 10_000) by (nonlinear_arith)
        requires
            y >= 0,
    ;
}

} // verus!
