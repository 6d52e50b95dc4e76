use vigyl::trigger::price_threshold::{PriceDirection, PriceThresholdTrigger, PythObservation};
use vigyl::VigylError;

fn base() -> PriceThresholdTrigger {
    PriceThresholdTrigger {
        pyth_feed: [1u8; 32],
        threshold_price_e6: 200_000_000,
        direction: PriceDirection::Above,
        max_confidence_pct: 50,
        min_publish_time_seconds: 60,
    }
}

#[test]
fn above_fires_when_price_crosses() {
    let t = base();
    let now = 1_000_000;
    let obs = PythObservation {
        price_e6: 201_000_000,
        confidence_pct: 10,
        publish_time_seconds: now - 5,
    };
    assert!(t.should_fire(obs, now));
}

#[test]
fn stale_price_does_not_fire() {
    let t = base();
    let now = 1_000_000;
    let obs = PythObservation {
        price_e6: 500_000_000,
        confidence_pct: 10,
        publish_time_seconds: now - 3_600,
    };
    assert!(!t.should_fire(obs, now));
}

#[test]
fn high_confidence_interval_rejected() {
    let t = base();
    let now = 1_000_000;
    let obs = PythObservation {
        price_e6: 500_000_000,
        confidence_pct: 90,
        publish_time_seconds: now,
    };
    assert!(!t.should_fire(obs, now));
}

#[test]
fn price_threshold_roundtrip_encode_decode() {
    let t = base();
    let buf = t.encode();
    let back = PriceThresholdTrigger::decode(&buf).unwrap();
    assert_eq!(back, t);
}

#[test]
fn below_fires_at_or_under_threshold() {
    let mut t = base();
    t.direction = PriceDirection::Below;
    let now = 50;
    let at = PythObservation { price_e6: 200_000_000, confidence_pct: 50, publish_time_seconds: now - 60 };
    let over = PythObservation { price_e6: 200_000_001, confidence_pct: 0, publish_time_seconds: now };
    assert!(t.should_fire(at, now));
    assert!(!t.should_fire(over, now));
}

#[test]
fn age_is_saturated() {
    let mut t = base();
    t.min_publish_time_seconds = i64::MAX;
    let obs = PythObservation { price_e6: i64::MAX, confidence_pct: 0, publish_time_seconds: i64::MIN };
    assert!(t.should_fire(obs, i64::MAX));
    t.min_publish_time_seconds = i64::MAX - 1;
    assert!(!t.should_fire(obs, i64::MAX));
}

#[test]
fn unknown_direction_tag_rejected() {
    let mut buf = base().encode();
    buf[40] = 2;
    assert_eq!(
        PriceThresholdTrigger::decode(&buf),
        Err(VigylError::InvalidTrigger("unknown direction tag"))
    );
    assert_eq!(PriceDirection::from_tag(7), Err(VigylError::InvalidTrigger("unknown direction tag")));
}

#[test]
fn direction_tags_roundtrip() {
    assert_eq!(PriceDirection::Above.tag(), 0);
    assert_eq!(PriceDirection::Below.tag(), 1);
    assert_eq!(PriceDirection::from_tag(1), Ok(PriceDirection::Below));
}

#[test]
fn price_threshold_layout_bytes() {
    let t = PriceThresholdTrigger {
        pyth_feed: [4u8; 32],
        threshold_price_e6: -2,
        direction: PriceDirection::Below,
        max_confidence_pct: 0x01020304,
        min_publish_time_seconds: 0x0A0B,
    };
    let buf = t.encode();
    assert_eq!(&buf[32..40], &(-2i64).to_le_bytes());
    assert_eq!(buf[40], 1);
    assert_eq!(&buf[41..49], &[4, 3, 2, 1, 0, 0, 0, 0]);
    assert_eq!(&buf[49..57], &[0x0B, 0x0A, 0, 0, 0, 0, 0, 0]);
    assert!(buf[57..].iter().all(|b| *b == 0));
    assert_eq!(PriceThresholdTrigger::decode(&buf).unwrap(), t);
}

#[test]
fn wide_confidence_is_truncated_on_decode() {
    let mut buf = base().encode();
    buf[45] = 1;
    let back = PriceThresholdTrigger::decode(&buf).unwrap();
    assert_eq!(back.max_confidence_pct, 50);
}

#[test]
fn price_threshold_decode_ignores_reserved() {
    let t = base();
    let mut buf = t.encode();
    for b in buf[57..].iter_mut() {
        *b = 0xAB;
    }
    assert_eq!(PriceThresholdTrigger::decode(&buf).unwrap(), t);
}

#[test]
fn price_threshold_reencode_gives_buffer_back() {
    let mut buf = [0u8; 128];
    for (i, b) in buf[..45].iter_mut().enumerate() {
        *b = i as u8;
    }
    buf[40] = 1;
    buf[50] = 0xEE;
    let t = PriceThresholdTrigger::decode(&buf).unwrap();
    assert_eq!(t.encode(), buf);
}
