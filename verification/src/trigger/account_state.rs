//! Account-state trigger: fires when the digest of a watched slice of account data changes.
use vstd::prelude::*;

use crate::bytes::{
    array32_of,
    le_bytes_u16,
    lemma_u16_bytes_roundtrip,
    lemma_u16_roundtrip,
    read_array32,
    read_u16_le,
    u16_from_le,
    write_slice,
    write_u16_le,
};
use crate::hashing::{sha256, sha256_digest};
use crate::VigylError;

verus! {

/// The values needed to encode `AccountState` into the on-chain trigger buffer.
#[derive(Clone, Copy, Debug, PartialEq, Eq)]
pub struct AccountStateTrigger {
    pub watched_account: [u8; 32],
    pub expected_hash: [u8; 32],
    pub data_offset: u16,
    pub data_len: u16,
}

/// The 128-byte layout: watched account at 0..32, expected hash at 32..64, offset at 64..66,
/// length at 66..68, zeros after.
pub open spec fn account_state_layout(t: AccountStateTrigger) -> Seq<u8> {
    t.watched_account@ + t.expected_hash@ + le_bytes_u16(t.data_offset) + le_bytes_u16(t.data_len)
        + Seq::new(60, |i: int| 0u8)
}

/// What a buffer decodes to; reserved bytes 68..128 play no part.
pub open spec fn account_state_from_layout(b: Seq<u8>) -> AccountStateTrigger {
    AccountStateTrigger {
        watched_account: array32_of(b.subrange(0, 32)),
        expected_hash: array32_of(b.subrange(32, 64)),
        data_offset: u16_from_le(b.subrange(64, 66)),
        data_len: u16_from_le(b.subrange(66, 68)),
    }
}

/// The bytes that `hash_slice` hashes: the entire data when `len == 0`, otherwise the `len`
/// bytes from `offset`, cut at the end of the data.
pub open spec fn watched_slice(data: Seq<u8>, offset: u16, len: u16) -> Seq<u8> {
    if len == 0 {
        data
    } else if offset + len > data.len() {
        data.subrange(offset as int, data.len() as int)
    } else {
        data.subrange(offset as int, offset + len)
    }
}

impl AccountStateTrigger {
    /// Encode the trigger into the 128-byte buffer.
    pub fn encode(&self) -> (buf: [u8; 128])
        ensures
            buf@ == account_state_layout(*self),
    {
        let mut buf = [0u8; 128];
        write_slice(&mut buf, 0, &self.watched_account);
        write_slice(&mut buf, 32, &self.expected_hash);
        write_u16_le(&mut buf, 64, self.data_offset);
        write_u16_le(&mut buf, 66, self.data_len);
        assert(buf@ =~= account_state_layout(*self));
        buf
    }

    /// Decode the trigger back from the 128-byte buffer. Reserved bytes are ignored.
    ///
    /// Re-encoding the result gives the buffer back whenever its reserved bytes are zero.
    pub fn decode(buf: &[u8; 128]) -> (t: Self)
        ensures
            t == account_state_from_layout(buf@),
            buf@.subrange(68, 128) == Seq::new(60, |i: int| 0u8) ==> account_state_layout(t)
                == buf@,
    {
        let watched = read_array32(buf, 0);
        let hash = read_array32(buf, 32);
        let offset = read_u16_le(buf, 64);
        let len = read_u16_le(buf, 66);
        proof {
            let a = array32_of(buf@.subrange(0, 32));
            assert(a@ == buf@.subrange(0, 32));
            assert(a =~= watched);
            let h = array32_of(buf@.subrange(32, 64));
            assert(h@ == buf@.subrange(32, 64));
            assert(h =~= hash);
            lemma_u16_bytes_roundtrip(buf@.subrange(64, 66));
            lemma_u16_bytes_roundtrip(buf@.subrange(66, 68));
            if buf@.subrange(68, 128) == Seq::new(60, |i: int| 0u8) {
                assert(buf@ =~= watched@ + hash@ + buf@.subrange(64, 66) + buf@.subrange(66, 68)
                    + buf@.subrange(68, 128));
            }
        }
        AccountStateTrigger {
            watched_account: watched,
            expected_hash: hash,
            data_offset: offset,
            data_len: len,
        }
    }
}

/// SHA-256 of the requested slice of an account's data.
///
/// `len == 0` hashes the entire account data; otherwise the slice starts at `offset`, and a
/// slice that would run past the end is cut at the end. Fails with
/// `OutOfRange("offset > data.len()")` exactly when the offset lies beyond the data.
pub fn hash_slice(data: &[u8], offset: u16, len: u16) -> (r: Result<[u8; 32], VigylError>)
    ensures
        offset > data@.len() ==> r == Err::<[u8; 32], VigylError>(
            VigylError::OutOfRange("offset > data.len()"),
        ),
        offset <= data@.len() ==> (r matches Ok(h) && h@ == sha256_digest(
            watched_slice(data@, offset, len),
        )),
{
    let start = offset as usize;
    if start > data.len() {
        return Err(VigylError::OutOfRange("offset > data.len()"));
    }
    if len == 0 {
        return Ok(sha256(data));
    }
    let end = start + len as usize;
    let end = if end < data.len() {
        end
    } else {
        data.len()
    };
    let slice = vstd::slice::slice_subrange(data, start, end);
    Ok(sha256(slice))
}

/// Whether the recomputed digest differs from the previous one.
pub fn account_changed(previous: &[u8; 32], current: &[u8; 32]) -> (changed: bool)
    ensures
        changed == (previous@ != current@),
{
    let mut i: usize = 0;
    while i < 32
        invariant
            i <= 32,
            forall|k: int| 0 <= k < i ==> previous@[k] == current@[k],
        decreases 32 - i,
    {
        if previous[i] != current[i] {
            return true;
        }
        i += 1;
    }
    assert(previous@ =~= current@);
    false
}

/// Decoding an encoded trigger gives the trigger back.
pub proof fn lemma_account_state_roundtrip(t: AccountStateTrigger)
    ensures
        account_state_from_layout(account_state_layout(t)) == t,
{
    let b = account_state_layout(t);
    assert(b.subrange(0, 32) =~= t.watched_account@);
    assert(b.subrange(32, 64) =~= t.expected_hash@);
    assert(b.subrange(64, 66) =~= le_bytes_u16(t.data_offset));
    assert(b.subrange(66, 68) =~= le_bytes_u16(t.data_len));
    lemma_u16_roundtrip(t.data_offset);
    lemma_u16_roundtrip(t.data_len);
    let a = array32_of(t.watched_account@);
    assert(a =~= t.watched_account);
    let h = array32_of(t.expected_hash@);
    assert(h =~= t.expected_hash);
}

/// Decoding reads only bytes 0..68: buffers that agree there decode alike.
pub proof fn lemma_account_state_ignores_reserved(a: Seq<u8>, b: Seq<u8>)
    requires
        a.len() == 128,
        b.len() == 128,
        a.subrange(0, 68) == b.subrange(0, 68),
    ensures
        account_state_from_layout(a) == account_state_from_layout(b),
{
    let pa = a.subrange(0, 68);
    let pb = b.subrange(0, 68);
    assert(a.subrange(0, 32) =~= pa.subrange(0, 32) && b.subrange(0, 32) =~= pb.subrange(0, 32));
    assert(a.subrange(32, 64) =~= pa.subrange(32, 64) && b.subrange(32, 64) =~= pb.subrange(32, 64));
    assert(a.subrange(64, 66) =~= pa.subrange(64, 66) && b.subrange(64, 66) =~= pb.subrange(64, 66));
    assert(a.subrange(66, 68) =~= pa.subrange(66, 68) && b.subrange(66, 68) =~= pb.subrange(66, 68));
}

/// A zero length hashes the entire data, whatever the offset: the same bytes as offset 0 with
/// the full length.
pub proof fn lemma_zero_len_hashes_whole_data(data: Seq<u8>, offset: u16, len: u16)
    requires
        len == data.len(),
    ensures
        watched_slice(data, offset, 0) == data,
        len > 0 ==> watched_slice(data, 0, len) == data,
{
    assert(data.subrange(0, data.len() as int) =~= data);
}

/// The hashed bytes: the whole data for a zero length; otherwise the bytes from `offset` up
/// to `offset + len`, or up to the end of the data when that comes first.
pub proof fn lemma_watched_slice_bounds(data: Seq<u8>, offset: u16, len: u16)
    requires
        offset <= data.len(),
    ensures
        len == 0 ==> watched_slice(data, offset, len) == data,
        len > 0 ==> watched_slice(data, offset, len).len() == vstd::math::min(
            len as int,
            data.len() - offset,
        ),
        len > 0 ==> forall|k: int|
            0 <= k < watched_slice(data, offset, len).len() ==> #[trigger] watched_slice(
                data,
                offset,
                len,
            )[k] == data[offset + k],
{
}

} // verus!
