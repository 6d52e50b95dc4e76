use vigyl::trigger::slot_epoch::{SlotEpochGranularity, SlotEpochTrigger};
use vigyl::VigylError;

#[test]
fn slot_period_fires_after_gap() {
    let t = SlotEpochTrigger {
        granularity: SlotEpochGranularity::Slot,
        period_slots: 100,
        last_fired_slot: 500,
    };
    assert!(!t.should_fire(599, 0, 432_000));
    assert!(t.should_fire(600, 0, 432_000));
}

#[test]
fn epoch_fires_on_boundary_once() {
    let mut t = SlotEpochTrigger {
        granularity: SlotEpochGranularity::Epoch,
        period_slots: 0,
        last_fired_slot: 431_999,
    };
    assert!(t.should_fire(432_000, 1, 432_000));
    // once the keeper records the fire, the same epoch must not fire again
    t.last_fired_slot = 432_000;
    assert!(!t.should_fire(432_100, 1, 432_000));
}

#[test]
fn slot_epoch_roundtrip_encode_decode() {
    let t = SlotEpochTrigger {
        granularity: SlotEpochGranularity::Slot,
        period_slots: 250,
        last_fired_slot: 1_234_567,
    };
    let buf = t.encode();
    let back = SlotEpochTrigger::decode(&buf).unwrap();
    assert_eq!(back, t);
}

#[test]
fn zero_period_never_fires() {
    let t = SlotEpochTrigger { granularity: SlotEpochGranularity::Slot, period_slots: 0, last_fired_slot: 0 };
    assert!(!t.should_fire(u64::MAX, 0, 1));
}

#[test]
fn slot_gap_saturates_below_last_fire() {
    let t = SlotEpochTrigger { granularity: SlotEpochGranularity::Slot, period_slots: 1, last_fired_slot: 10 };
    assert!(!t.should_fire(5, 0, 1));
}

#[test]
fn next_run_slot_values() {
    let slot = SlotEpochTrigger { granularity: SlotEpochGranularity::Slot, period_slots: 100, last_fired_slot: 500 };
    assert_eq!(slot.next_run_slot(0, 0), 600);
    let sat = SlotEpochTrigger { granularity: SlotEpochGranularity::Slot, period_slots: u64::MAX, last_fired_slot: 2 };
    assert_eq!(sat.next_run_slot(0, 0), u64::MAX);
    let epoch = SlotEpochTrigger { granularity: SlotEpochGranularity::Epoch, period_slots: 0, last_fired_slot: 0 };
    assert_eq!(epoch.next_run_slot(432_100, 432_000), 864_000);
    assert_eq!(epoch.next_run_slot(431_999, 432_000), 432_000);
    assert_eq!(epoch.next_run_slot(5, 0), 0);
    assert_eq!(epoch.next_run_slot(u64::MAX - 1, 2), u64::MAX);
}

#[test]
fn unknown_granularity_tag_rejected() {
    let mut buf = SlotEpochTrigger { granularity: SlotEpochGranularity::Epoch, period_slots: 1, last_fired_slot: 2 }.encode();
    assert_eq!(buf[0], 1);
    buf[0] = 9;
    assert_eq!(SlotEpochTrigger::decode(&buf), Err(VigylError::InvalidTrigger("unknown granularity tag")));
    assert_eq!(SlotEpochGranularity::from_tag(2), Err(VigylError::InvalidTrigger("unknown granularity tag")));
}

#[test]
fn slot_epoch_layout_bytes() {
    let t = SlotEpochTrigger { granularity: SlotEpochGranularity::Slot, period_slots: 0x0102, last_fired_slot: u64::MAX };
    let buf = t.encode();
    assert_eq!(buf[0], 0);
    assert_eq!(&buf[1..9], &[2, 1, 0, 0, 0, 0, 0, 0]);
    assert_eq!(&buf[9..17], &[0xFF; 8]);
    assert!(buf[17..].iter().all(|b| *b == 0));
}

#[test]
fn epoch_start_saturates() {
    let t = SlotEpochTrigger { granularity: SlotEpochGranularity::Epoch, period_slots: 0, last_fired_slot: 0 };
    assert!(t.should_fire(u64::MAX, u64::MAX, 2));
    assert!(!t.should_fire(u64::MAX - 1, u64::MAX, 2));
}

#[test]
fn slot_epoch_decode_ignores_reserved() {
    let t = SlotEpochTrigger { granularity: SlotEpochGranularity::Epoch, period_slots: 7, last_fired_slot: 8 };
    let mut buf = t.encode();
    for b in buf[17..].iter_mut() {
        *b = 0x5A;
    }
    assert_eq!(SlotEpochTrigger::decode(&buf).unwrap(), t);
}

#[test]
fn slot_epoch_reencode_gives_buffer_back() {
    let mut buf = [0u8; 128];
    buf[0] = 1;
    buf[3] = 0x77;
    buf[16] = 0x99;
    let t = SlotEpochTrigger::decode(&buf).unwrap();
    assert_eq!(t.encode(), buf);
}
