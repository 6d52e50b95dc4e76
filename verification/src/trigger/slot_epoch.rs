//! Slot / epoch trigger: fires every `period_slots` slots, or once per epoch.
use vstd::prelude::*;

use crate::bytes::{le_bytes_u64, lemma_u64_bytes_roundtrip, lemma_u64_roundtrip, read_u64_le, u64_from_le, write_u64_le};
use crate::arith::saturating_mul_u64;
use crate::VigylError;

verus! {

/// The granularity of the slot/epoch trigger.
#[derive(Clone, Copy, Debug, PartialEq, Eq)]
pub enum SlotEpochGranularity {
    Slot,
    Epoch,
}

/// The tag byte that stands for a granularity in the encoded buffer.
pub open spec fn granularity_tag(g: SlotEpochGranularity) -> u8 {
    match g {
        SlotEpochGranularity::Slot => 0,
        SlotEpochGranularity::Epoch => 1,
    }
}

/// The granularity a tag byte stands for, if any.
pub open spec fn granularity_of_tag(tag: u8) -> Option<SlotEpochGranularity> {
    if tag == 0 {
        Some(SlotEpochGranularity::Slot)
    } else if tag == 1 {
        Some(SlotEpochGranularity::Epoch)
    } else {
        None
    }
}

impl SlotEpochGranularity {
    pub fn tag(self) -> (t: u8)
        ensures
            t == granularity_tag(self),
    {
        match self {
            SlotEpochGranularity::Slot => 0,
            SlotEpochGranularity::Epoch => 1,
        }
    }

    /// Fails with `InvalidTrigger("unknown granularity tag")` exactly when the tag is above 1.
    pub fn from_tag(tag: u8) -> (r: Result<Self, VigylError>)
        ensures
            match granularity_of_tag(tag) {
                Some(g) => r == Ok::<Self, VigylError>(g),
                None => r == Err::<Self, VigylError>(
                    VigylError::InvalidTrigger("unknown granularity tag"),
                ),
            },
    {
        match tag {
            0 => Ok(SlotEpochGranularity::Slot),
            1 => Ok(SlotEpochGranularity::Epoch),
            _ => Err(VigylError::InvalidTrigger("unknown granularity tag")),
        }
    }
}

/// Encoded form of the slot/epoch trigger.
#[derive(Clone, Copy, Debug, PartialEq, Eq)]
pub struct SlotEpochTrigger {
    pub granularity: SlotEpochGranularity,
    pub period_slots: u64,
    pub last_fired_slot: u64,
}

/// The 128-byte layout: tag at 0, `period_slots` at 1..9, `last_fired_slot` at 9..17,
/// zeros after.
pub open spec fn slot_epoch_layout(t: SlotEpochTrigger) -> Seq<u8> {
    seq![granularity_tag(t.granularity)] + le_bytes_u64(t.period_slots) + le_bytes_u64(
        t.last_fired_slot,
    ) + Seq::new(111, |i: int| 0u8)
}

/// What a buffer decodes to; reserved bytes 17..128 play no part.
pub open spec fn slot_epoch_from_layout(b: Seq<u8>) -> Option<SlotEpochTrigger> {
    match granularity_of_tag(b[0]) {
        Some(g) => Some(
            SlotEpochTrigger {
                granularity: g,
                period_slots: u64_from_le(b.subrange(1, 9)),
                last_fired_slot: u64_from_le(b.subrange(9, 17)),
            },
        ),
        None => None,
    }
}

/// The first slot of `epoch`, saturating at `u64::MAX`.
pub open spec fn epoch_start(epoch: u64, slots_per_epoch: u64) -> int {
    if epoch * slots_per_epoch > u64::MAX {
        u64::MAX as int
    } else {
        epoch * slots_per_epoch
    }
}

/// Whether the trigger fires at `current_slot` of `current_epoch`.
pub open spec fn slot_epoch_fires(
    t: SlotEpochTrigger,
    current_slot: u64,
    current_epoch: u64,
    slots_per_epoch: u64,
) -> bool {
    match t.granularity {
        SlotEpochGranularity::Epoch => {
            let start = epoch_start(current_epoch, slots_per_epoch);
            current_slot >= start && t.last_fired_slot < start
        },
        SlotEpochGranularity::Slot => t.period_slots != 0 && current_slot - t.last_fired_slot
            >= t.period_slots,
    }
}

/// The slot at which the trigger next wants to fire.
pub open spec fn slot_epoch_next_run(
    t: SlotEpochTrigger,
    current_slot: u64,
    slots_per_epoch: u64,
) -> int {
    match t.granularity {
        SlotEpochGranularity::Epoch => {
            let per = if slots_per_epoch == 0 {
                1
            } else {
                slots_per_epoch as int
            };
            let next = current_slot as int / per + 1;
            if next * slots_per_epoch > u64::MAX {
                u64::MAX as int
            } else {
                next * slots_per_epoch
            }
        },
        SlotEpochGranularity::Slot => if t.last_fired_slot + t.period_slots > u64::MAX {
            u64::MAX as int
        } else {
            t.last_fired_slot + t.period_slots
        },
    }
}

impl SlotEpochTrigger {
    /// Encode into the 128-byte trigger buffer.
    pub fn encode(&self) -> (buf: [u8; 128])
        ensures
            buf@ == slot_epoch_layout(*self),
    {
        let mut buf = [0u8; 128];
        buf[0] = self.granularity.tag();
        write_u64_le(&mut buf, 1, self.period_slots);
        write_u64_le(&mut buf, 9, self.last_fired_slot);
        assert(buf@ =~= slot_epoch_layout(*self));
        buf
    }

    /// Decode the trigger; fails with `InvalidTrigger("unknown granularity tag")` exactly when
    /// byte 0 is above 1. Re-encoding a decoded trigger gives the buffer back whenever its
    /// reserved bytes are zero.
    pub fn decode(buf: &[u8; 128]) -> (r: Result<Self, VigylError>)
        ensures
            r matches Ok(t) ==> (buf@.subrange(17, 128) == Seq::new(111, |i: int| 0u8)
                ==> slot_epoch_layout(t) == buf@),
            match slot_epoch_from_layout(buf@) {
                Some(t) => r == Ok::<Self, VigylError>(t),
                None => r == Err::<Self, VigylError>(
                    VigylError::InvalidTrigger("unknown granularity tag"),
                ),
            },
    {
        let granularity = match SlotEpochGranularity::from_tag(buf[0]) {
            Ok(g) => g,
            Err(e) => return Err(e),
        };
        let period = read_u64_le(buf, 1);
        let last = read_u64_le(buf, 9);
        proof {
            lemma_u64_bytes_roundtrip(buf@.subrange(1, 9));
            lemma_u64_bytes_roundtrip(buf@.subrange(9, 17));
            if buf@.subrange(17, 128) == Seq::new(111, |i: int| 0u8) {
                assert(buf@ =~= seq![buf@[0]] + buf@.subrange(1, 9) + buf@.subrange(9, 17)
                    + buf@.subrange(17, 128));
            }
        }
        Ok(SlotEpochTrigger { granularity, period_slots: period, last_fired_slot: last })
    }

    /// Given the current slot / epoch clock, decide whether to fire.
    pub fn should_fire(&self, current_slot: u64, current_epoch: u64, slots_per_epoch: u64) -> (b:
        bool)
        ensures
            b == slot_epoch_fires(*self, current_slot, current_epoch, slots_per_epoch),
    {
        match self.granularity {
            SlotEpochGranularity::Epoch => {
                let start = saturating_mul_u64(current_epoch, slots_per_epoch);
                current_slot >= start && self.last_fired_slot < start
            },
            SlotEpochGranularity::Slot => {
                if self.period_slots == 0 {
                    false
                } else {
                    current_slot.saturating_sub(self.last_fired_slot) >= self.period_slots
                }
            },
        }
    }

    /// When the trigger will next want to fire.
    ///
    /// With epoch granularity, a clock of one slot per epoch (or none) at the very last slot
    /// has no next epoch to name; that input is left out.
    pub fn next_run_slot(&self, current_slot: u64, slots_per_epoch: u64) -> (s: u64)
        requires
            self.granularity == SlotEpochGranularity::Epoch ==> (slots_per_epoch > 1
                || current_slot < u64::MAX),
        ensures
            s == slot_epoch_next_run(*self, current_slot, slots_per_epoch),
    {
        match self.granularity {
            SlotEpochGranularity::Epoch => {
                let per = if slots_per_epoch > 1 {
                    slots_per_epoch
                } else {
                    1
                };
                let epoch = current_slot / per;
                assert(epoch < u64::MAX) by (nonlinear_arith)
                    requires
                        epoch == current_slot / per,
                        per >= 1,
                        per > 1 || current_slot < u64::MAX,
                ;
                saturating_mul_u64(epoch + 1, slots_per_epoch)
            },
            SlotEpochGranularity::Slot => self.last_fired_slot.saturating_add(self.period_slots),
        }
    }
}

/// Decoding an encoded trigger gives the trigger back.
pub proof fn lemma_slot_epoch_roundtrip(t: SlotEpochTrigger)
    ensures
        slot_epoch_from_layout(slot_epoch_layout(t)) == Some(t),
{
    let b = slot_epoch_layout(t);
    assert(b.subrange(1, 9) =~= le_bytes_u64(t.period_slots));
    assert(b.subrange(9, 17) =~= le_bytes_u64(t.last_fired_slot));
    lemma_u64_roundtrip(t.period_slots);
    lemma_u64_roundtrip(t.last_fired_slot);
}

/// Decoding reads only bytes 0..17: buffers that agree there decode alike.
pub proof fn lemma_slot_epoch_ignores_reserved(a: Seq<u8>, b: Seq<u8>)
    requires
        a.len() == 128,
        b.len() == 128,
        a.subrange(0, 17) == b.subrange(0, 17),
    ensures
        slot_epoch_from_layout(a) == slot_epoch_from_layout(b),
{
    assert(a[0] == a.subrange(0, 17)[0]);
    assert(a.subrange(1, 9) =~= a.subrange(0, 17).subrange(1, 9));
    assert(b.subrange(1, 9) =~= b.subrange(0, 17).subrange(1, 9));
    assert(a.subrange(9, 17) =~= a.subrange(0, 17).subrange(9, 17));
    assert(b.subrange(9, 17) =~= b.subrange(0, 17).subrange(9, 17));
}

/// The tag of a granularity reads back as that granularity.
pub proof fn lemma_granularity_tag_roundtrip(g: SlotEpochGranularity)
    ensures
        granularity_of_tag(granularity_tag(g)) == Some(g),
{
}

/// Once an epoch trigger has recorded a fire at or after the start of the current epoch, it
/// does not fire again within that epoch.
pub proof fn lemma_epoch_fires_once(
    t: SlotEpochTrigger,
    fired_at: u64,
    current_slot: u64,
    current_epoch: u64,
    slots_per_epoch: u64,
)
    requires
        t.granularity == SlotEpochGranularity::Epoch,
        fired_at >= epoch_start(current_epoch, slots_per_epoch),
    ensures
        !slot_epoch_fires(
            SlotEpochTrigger { last_fired_slot: fired_at, ..t },
            current_slot,
            current_epoch,
            slots_per_epoch,
        ),
{
}

/// A slot trigger with a non-zero period fires exactly when at least `period_slots` slots have
/// passed since the last fire, and never before its next run slot.
pub proof fn lemma_slot_period_fires_at_next_run(
    t: SlotEpochTrigger,
    current_slot: u64,
    current_epoch: u64,
    slots_per_epoch: u64,
)
    requires
        t.granularity == SlotEpochGranularity::Slot,
        t.period_slots != 0,
    ensures
        slot_epoch_fires(t, current_slot, current_epoch, slots_per_epoch) ==> current_slot
            >= slot_epoch_next_run(t, current_slot, slots_per_epoch),
        current_slot >= t.last_fired_slot + t.period_slots ==> slot_epoch_fires(
            t,
            current_slot,
            current_epoch,
            slots_per_epoch,
        ),
{
}

/// An epoch trigger fires exactly when the current epoch has begun and the last fire came
/// before its first slot. That first slot is the epoch number times the slots per epoch; when
/// the product does not fit in 64 bits it is `u64::MAX`.
pub proof fn lemma_epoch_fires_iff_epoch_begun(
    t: SlotEpochTrigger,
    current_slot: u64,
    current_epoch: u64,
    slots_per_epoch: u64,
)
    requires
        t.granularity == SlotEpochGranularity::Epoch,
    ensures
        current_epoch * slots_per_epoch <= u64::MAX ==> (slot_epoch_fires(
            t,
            current_slot,
            current_epoch,
            slots_per_epoch,
        ) <==> (t.last_fired_slot < current_epoch * slots_per_epoch && current_epoch
            * slots_per_epoch <= current_slot)),
        current_epoch * slots_per_epoch > u64::MAX ==> (slot_epoch_fires(
            t,
            current_slot,
            current_epoch,
            slots_per_epoch,
        ) <==> (t.last_fired_slot < u64::MAX && current_slot == u64::MAX)),
{
}

/// A slot trigger fires exactly when its period is non-zero and at least a period has passed
/// since the last fire.
pub proof fn lemma_slot_fires_iff_period_passed(
    t: SlotEpochTrigger,
    current_slot: u64,
    current_epoch: u64,
    slots_per_epoch: u64,
)
    requires
        t.granularity == SlotEpochGranularity::Slot,
    ensures
        slot_epoch_fires(t, current_slot, current_epoch, slots_per_epoch) <==> (t.period_slots > 0
            && current_slot >= t.last_fired_slot + t.period_slots),
{
}

/// The next run of a slot trigger is one period after its last fire (at most `u64::MAX`); that
/// of an epoch trigger is the first slot of the epoch after the current slot's (at most
/// `u64::MAX`).
pub proof fn lemma_next_run_slot_values(t: SlotEpochTrigger, current_slot: u64, slots_per_epoch: u64)
    requires
        slots_per_epoch > 0,
    ensures
        t.granularity == SlotEpochGranularity::Slot ==> slot_epoch_next_run(
            t,
            current_slot,
            slots_per_epoch,
        ) == if t.last_fired_slot + t.period_slots <= u64::MAX {
            t.last_fired_slot + t.period_slots
        } else {
            u64::MAX as int
        },
        t.granularity == SlotEpochGranularity::Epoch && (current_slot / slots_per_epoch + 1)
            * slots_per_epoch <= u64::MAX ==> slot_epoch_next_run(t, current_slot, slots_per_epoch)
            > current_slot && slot_epoch_next_run(t, current_slot, slots_per_epoch)
            % slots_per_epoch as int == 0 && slot_epoch_next_run(t, current_slot, slots_per_epoch)
            - slots_per_epoch <= current_slot,
{
    if t.granularity == SlotEpochGranularity::Epoch {
        let q = current_slot as int / slots_per_epoch as int;
        let n = (q + 1) * slots_per_epoch;
        assert(n > current_slot && n % slots_per_epoch as int == 0 && n - slots_per_epoch
            <= current_slot) by (nonlinear_arith)
            requires
                slots_per_epoch > 0,
                current_slot >= 0,
                q == current_slot as int / slots_per_epoch as int,
                n == (q + 1) * slots_per_epoch,
        ;
    }
}

} // verus!
