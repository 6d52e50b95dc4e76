//! Price-threshold trigger over an oracle price feed.
use vstd::prelude::*;

use crate::arith::{saturating_sub_i64, saturating_sub_i64_spec};
use crate::bytes::{
    array32_of,
    i64_from_le,
    le_bytes_i64,
    le_bytes_u64,
    lemma_i64_bytes_roundtrip,
    lemma_i64_roundtrip,
    lemma_u64_bytes_roundtrip,
    lemma_u64_from_le_fits_u32,
    lemma_u64_roundtrip,
    read_array32,
    read_i64_le,
    read_u64_le,
    u64_from_le,
    write_i64_le,
    write_slice,
    write_u64_le,
};
use crate::VigylError;

verus! {

/// Direction of the price crossing that fires the trigger.
#[derive(Clone, Copy, Debug, PartialEq, Eq)]
pub enum PriceDirection {
    Above,
    Below,
}

/// The tag byte that stands for a direction in the encoded buffer.
pub open spec fn direction_tag(d: PriceDirection) -> u8 {
    match d {
        PriceDirection::Above => 0,
        PriceDirection::Below => 1,
    }
}

/// The direction a tag byte stands for, if any.
pub open spec fn direction_of_tag(tag: u8) -> Option<PriceDirection> {
    if tag == 0 {
        Some(PriceDirection::Above)
    } else if tag == 1 {
        Some(PriceDirection::Below)
    } else {
        None
    }
}

impl PriceDirection {
    pub fn tag(self) -> (t: u8)
        ensures
            t == direction_tag(self),
    {
        match self {
            PriceDirection::Above => 0,
            PriceDirection::Below => 1,
        }
    }

    /// Fails with `InvalidTrigger("unknown direction tag")` exactly when the tag is above 1.
    pub fn from_tag(tag: u8) -> (r: Result<Self, VigylError>)
        ensures
            match direction_of_tag(tag) {
                Some(d) => r == Ok::<Self, VigylError>(d),
                None => r == Err::<Self, VigylError>(
                    VigylError::InvalidTrigger("unknown direction tag"),
                ),
            },
    {
        match tag {
            0 => Ok(PriceDirection::Above),
            1 => Ok(PriceDirection::Below),
            _ => Err(VigylError::InvalidTrigger("unknown direction tag")),
        }
    }
}

/// A single oracle observation as consumed by the trigger evaluator.
#[derive(Clone, Copy, Debug)]
pub struct PythObservation {
    pub price_e6: i64,
    pub confidence_pct: u32,
    pub publish_time_seconds: i64,
}

/// The encoded price-threshold trigger the daemon and program both understand.
#[derive(Clone, Copy, Debug, PartialEq, Eq)]
pub struct PriceThresholdTrigger {
    pub pyth_feed: [u8; 32],
    pub threshold_price_e6: i64,
    pub direction: PriceDirection,
    pub max_confidence_pct: u32,
    pub min_publish_time_seconds: i64,
}

/// The 128-byte layout: feed at 0..32, threshold at 32..40, direction tag at 40, confidence
/// (widened to 64 bits) at 41..49, freshness bound at 49..57, zeros after.
pub open spec fn price_threshold_layout(t: PriceThresholdTrigger) -> Seq<u8> {
    t.pyth_feed@ + le_bytes_i64(t.threshold_price_e6) + seq![direction_tag(t.direction)]
        + le_bytes_u64(t.max_confidence_pct as u64) + le_bytes_i64(t.min_publish_time_seconds)
        + Seq::new(71, |i: int| 0u8)
}

/// What a buffer decodes to; the confidence keeps only the low 32 bits of its 64-bit field,
/// and reserved bytes 57..128 play no part.
pub open spec fn price_threshold_from_layout(b: Seq<u8>) -> Option<PriceThresholdTrigger> {
    match direction_of_tag(b[40]) {
        Some(d) => Some(
            PriceThresholdTrigger {
                pyth_feed: array32_of(b.subrange(0, 32)),
                threshold_price_e6: i64_from_le(b.subrange(32, 40)),
                direction: d,
                max_confidence_pct: u64_from_le(b.subrange(41, 49)) as u32,
                min_publish_time_seconds: i64_from_le(b.subrange(49, 57)),
            },
        ),
        None => None,
    }
}

/// Whether the trigger fires on `obs` at time `now_seconds`: the confidence must be within
/// bounds, the observation no older than `min_publish_time_seconds` (age computed with
/// saturation), and the price on the requested side of the threshold (inclusive).
pub open spec fn price_fires(t: PriceThresholdTrigger, obs: PythObservation, now_seconds: i64) -> bool {
    if obs.confidence_pct > t.max_confidence_pct {
        false
    } else if saturating_sub_i64_spec(now_seconds, obs.publish_time_seconds)
        > t.min_publish_time_seconds {
        false
    } else {
        match t.direction {
            PriceDirection::Above => obs.price_e6 >= t.threshold_price_e6,
            PriceDirection::Below => obs.price_e6 <= t.threshold_price_e6,
        }
    }
}

impl PriceThresholdTrigger {
    /// Encode into the 128-byte trigger buffer.
    pub fn encode(&self) -> (buf: [u8; 128])
        ensures
            buf@ == price_threshold_layout(*self),
    {
        let mut buf = [0u8; 128];
        write_slice(&mut buf, 0, &self.pyth_feed);
        write_i64_le(&mut buf, 32, self.threshold_price_e6);
        buf[40] = self.direction.tag();
        write_u64_le(&mut buf, 41, self.max_confidence_pct as u64);
        write_i64_le(&mut buf, 49, self.min_publish_time_seconds);
        assert(buf@ =~= price_threshold_layout(*self));
        buf
    }

    /// Decode the trigger; fails with `InvalidTrigger("unknown direction tag")` exactly when
    /// byte 40 is above 1. Re-encoding a decoded trigger gives the buffer back whenever its
    /// reserved bytes and the upper half of the confidence field (bytes 45..49) are zero.
    pub fn decode(buf: &[u8; 128]) -> (r: Result<Self, VigylError>)
        ensures
            r matches Ok(t) ==> (buf@.subrange(57, 128) == Seq::new(71, |i: int| 0u8)
                && buf@.subrange(45, 49) == Seq::new(4, |i: int| 0u8) ==> price_threshold_layout(t)
                == buf@),
            match price_threshold_from_layout(buf@) {
                Some(t) => r == Ok::<Self, VigylError>(t),
                None => r == Err::<Self, VigylError>(
                    VigylError::InvalidTrigger("unknown direction tag"),
                ),
            },
    {
        let feed = read_array32(buf, 0);
        let threshold = read_i64_le(buf, 32);
        let direction = match PriceDirection::from_tag(buf[40]) {
            Ok(d) => d,
            Err(e) => return Err(e),
        };
        let confidence = read_u64_le(buf, 41);
        let min_publish = read_i64_le(buf, 49);
        proof {
            let a = array32_of(buf@.subrange(0, 32));
            assert(feed@ == buf@.subrange(0, 32));
            assert(a@ == buf@.subrange(0, 32));
            assert(a =~= feed);
            lemma_i64_bytes_roundtrip(buf@.subrange(32, 40));
            lemma_i64_bytes_roundtrip(buf@.subrange(49, 57));
            let c = buf@.subrange(41, 49);
            if buf@.subrange(45, 49) == Seq::new(4, |i: int| 0u8) {
                assert(c[4] == buf@.subrange(45, 49)[0] && c[5] == buf@.subrange(45, 49)[1]);
                assert(c[6] == buf@.subrange(45, 49)[2] && c[7] == buf@.subrange(45, 49)[3]);
                lemma_u64_from_le_fits_u32(c);
                lemma_u64_bytes_roundtrip(c);
                assert(((confidence as u32) as u64) == confidence);
                if buf@.subrange(57, 128) == Seq::new(71, |i: int| 0u8) {
                    assert(buf@ =~= feed@ + buf@.subrange(32, 40) + seq![buf@[40]] + c
                        + buf@.subrange(49, 57) + buf@.subrange(57, 128));
                }
            }
        }
        Ok(
            PriceThresholdTrigger {
                pyth_feed: feed,
                threshold_price_e6: threshold,
                direction,
                max_confidence_pct: confidence as u32,
                min_publish_time_seconds: min_publish,
            },
        )
    }

    /// Whether the trigger fires on `observation` at `now_seconds`.
    pub fn should_fire(&self, observation: PythObservation, now_seconds: i64) -> (b: bool)
        ensures
            b == price_fires(*self, observation, now_seconds),
    {
        if observation.confidence_pct > self.max_confidence_pct {
            return false;
        }
        if saturating_sub_i64(now_seconds, observation.publish_time_seconds)
            > self.min_publish_time_seconds {
            return false;
        }
        match self.direction {
            PriceDirection::Above => observation.price_e6 >= self.threshold_price_e6,
            PriceDirection::Below => observation.price_e6 <= self.threshold_price_e6,
        }
    }
}

/// Decoding an encoded trigger gives the trigger back.
pub proof fn lemma_price_threshold_roundtrip(t: PriceThresholdTrigger)
    ensures
        price_threshold_from_layout(price_threshold_layout(t)) == Some(t),
{
    let b = price_threshold_layout(t);
    assert(b.subrange(0, 32) =~= t.pyth_feed@);
    assert(b.subrange(32, 40) =~= le_bytes_i64(t.threshold_price_e6));
    assert(b[40] == direction_tag(t.direction));
    assert(b.subrange(41, 49) =~= le_bytes_u64(t.max_confidence_pct as u64));
    assert(b.subrange(49, 57) =~= le_bytes_i64(t.min_publish_time_seconds));
    lemma_i64_roundtrip(t.threshold_price_e6);
    lemma_i64_roundtrip(t.min_publish_time_seconds);
    lemma_u64_roundtrip(t.max_confidence_pct as u64);
    let a = array32_of(t.pyth_feed@);
    assert(a@ == t.pyth_feed@);
    assert(a =~= t.pyth_feed);
}

/// Decoding reads only bytes 0..57: buffers that agree there decode alike.
pub proof fn lemma_price_threshold_ignores_reserved(a: Seq<u8>, b: Seq<u8>)
    requires
        a.len() == 128,
        b.len() == 128,
        a.subrange(0, 57) == b.subrange(0, 57),
    ensures
        price_threshold_from_layout(a) == price_threshold_from_layout(b),
{
    let pa = a.subrange(0, 57);
    let pb = b.subrange(0, 57);
    assert(a[40] == pa[40] && b[40] == pb[40]);
    assert(a.subrange(0, 32) =~= pa.subrange(0, 32) && b.subrange(0, 32) =~= pb.subrange(0, 32));
    assert(a.subrange(32, 40) =~= pa.subrange(32, 40) && b.subrange(32, 40) =~= pb.subrange(32, 40));
    assert(a.subrange(41, 49) =~= pa.subrange(41, 49) && b.subrange(41, 49) =~= pb.subrange(41, 49));
    assert(a.subrange(49, 57) =~= pa.subrange(49, 57) && b.subrange(49, 57) =~= pb.subrange(49, 57));
}

/// The tag of a direction reads back as that direction.
pub proof fn lemma_direction_tag_roundtrip(d: PriceDirection)
    ensures
        direction_of_tag(direction_tag(d)) == Some(d),
{
}

/// A trigger never fires on an observation whose confidence exceeds its bound or which is
/// older than its freshness bound (a bound of `i64::MAX` admits every age, however the
/// saturated age compares).
pub proof fn lemma_price_fires_only_when_fresh(
    t: PriceThresholdTrigger,
    obs: PythObservation,
    now_seconds: i64,
)
    requires
        t.min_publish_time_seconds < i64::MAX,
    ensures
        price_fires(t, obs, now_seconds) ==> obs.confidence_pct <= t.max_confidence_pct,
        price_fires(t, obs, now_seconds) ==> now_seconds - obs.publish_time_seconds
            <= t.min_publish_time_seconds,
{
}

/// A trigger fires only on the requested side of the threshold: an `Above` trigger at or above
/// it, a `Below` trigger at or below it. For an observation within the confidence bound and no
/// older than the freshness bound, the side of the threshold alone decides.
pub proof fn lemma_price_fires_on_requested_side(
    t: PriceThresholdTrigger,
    obs: PythObservation,
    now_seconds: i64,
)
    ensures
        price_fires(t, obs, now_seconds) && t.direction == PriceDirection::Above
            ==> obs.price_e6 >= t.threshold_price_e6,
        price_fires(t, obs, now_seconds) && t.direction == PriceDirection::Below
            ==> obs.price_e6 <= t.threshold_price_e6,
        obs.confidence_pct <= t.max_confidence_pct && i64::MIN <= now_seconds
            - obs.publish_time_seconds <= t.min_publish_time_seconds ==> (price_fires(
            t,
            obs,
            now_seconds,
        ) <==> if t.direction == PriceDirection::Above {
            obs.price_e6 >= t.threshold_price_e6
        } else {
            obs.price_e6 <= t.threshold_price_e6
        }),
{
}

} // verus!
