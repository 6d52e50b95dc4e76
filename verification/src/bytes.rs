//! Little-endian integer layouts inside the fixed 128-byte trigger buffer.
use vstd::prelude::*;

verus! {

/// The two little-endian bytes of `v`.
pub open spec fn le_bytes_u16(v: u16) -> Seq<u8> {
    seq![(v & 0xff) as u8, ((v >> 8u16) & 0xff) as u8]
}

/// The eight little-endian bytes of `v`.
pub open spec fn le_bytes_u64(v: u64) -> Seq<u8> {
    seq![
        (v & 0xff) as u8,
        ((v >> 8u64) & 0xff) as u8,
        ((v >> 16u64) & 0xff) as u8,
        ((v >> 24u64) & 0xff) as u8,
        ((v >> 32u64) & 0xff) as u8,
        ((v >> 40u64) & 0xff) as u8,
        ((v >> 48u64) & 0xff) as u8,
        ((v >> 56u64) & 0xff) as u8,
    ]
}

/// The eight little-endian bytes of the two's-complement form of `v`.
pub open spec fn le_bytes_i64(v: i64) -> Seq<u8> {
    le_bytes_u64(v as u64)
}

/// The value that two little-endian bytes spell.
pub open spec fn u16_from_le(b: Seq<u8>) -> u16 {
    (b[0] as u16) | ((b[1] as u16) << 8u16)
}

/// The value that eight little-endian bytes spell.
pub open spec fn u64_from_le(b: Seq<u8>) -> u64 {
    (b[0] as u64) | ((b[1] as u64) << 8u64) | ((b[2] as u64) << 16u64) | ((b[3] as u64) << 24u64)
        | ((b[4] as u64) << 32u64) | ((b[5] as u64) << 40u64) | ((b[6] as u64) << 48u64) | ((
    b[7] as u64) << 56u64)
}

/// The two's-complement value that eight little-endian bytes spell.
pub open spec fn i64_from_le(b: Seq<u8>) -> i64 {
    u64_from_le(b) as i64
}

/// The 32-byte array whose contents are `s`.
pub open spec fn array32_of(s: Seq<u8>) -> [u8; 32] {
    choose|a: [u8; 32]| a@ == s
}

/// Reading back two written bytes gives the value that was written.
pub proof fn lemma_u16_roundtrip(v: u16)
    ensures
        u16_from_le(le_bytes_u16(v)) == v,
{
    let b = le_bytes_u16(v);
    let b0 = b[0];
    let b1 = b[1];
    assert(b0 == (v & 0xff) as u8);
    assert(b1 == ((v >> 8u16) & 0xff) as u8);
    assert(((b0 as u16) | ((b1 as u16) << 8u16)) == v) by (bit_vector)
        requires
            b0 == (v & 0xff) as u8,
            b1 == ((v >> 8u16) & 0xff) as u8,
    ;
}

/// Reading back eight written bytes gives the value that was written.
pub proof fn lemma_u64_roundtrip(v: u64)
    ensures
        u64_from_le(le_bytes_u64(v)) == v,
{
    let b = le_bytes_u64(v);
    let b0 = b[0];
    let b1 = b[1];
    let b2 = b[2];
    let b3 = b[3];
    let b4 = b[4];
    let b5 = b[5];
    let b6 = b[6];
    let b7 = b[7];
    assert(((b0 as u64) | ((b1 as u64) << 8u64) | ((b2 as u64) << 16u64) | ((b3 as u64) << 24u64)
        | ((b4 as u64) << 32u64) | ((b5 as u64) << 40u64) | ((b6 as u64) << 48u64) | ((
    b7 as u64) << 56u64)) == v) by (bit_vector)
        requires
            b0 == (v & 0xff) as u8,
            b1 == ((v >> 8u64) & 0xff) as u8,
            b2 == ((v >> 16u64) & 0xff) as u8,
            b3 == ((v >> 24u64) & 0xff) as u8,
            b4 == ((v >> 32u64) & 0xff) as u8,
            b5 == ((v >> 40u64) & 0xff) as u8,
            b6 == ((v >> 48u64) & 0xff) as u8,
            b7 == ((v >> 56u64) & 0xff) as u8,
    ;
}

/// Reading back eight written bytes of a signed value gives the value that was written.
pub proof fn lemma_i64_roundtrip(v: i64)
    ensures
        i64_from_le(le_bytes_i64(v)) == v,
{
    lemma_u64_roundtrip(v as u64);
    assert(((v as u64) as i64) == v) by (bit_vector);
}

/// Writing back the value two bytes spell gives the same two bytes.
pub proof fn lemma_u16_bytes_roundtrip(s: Seq<u8>)
    requires
        s.len() == 2,
    ensures
        le_bytes_u16(u16_from_le(s)) == s,
{
    let b0 = s[0];
    let b1 = s[1];
    let v = u16_from_le(s);
    assert((v & 0xff) as u8 == b0 && ((v >> 8u16) & 0xff) as u8 == b1) by (bit_vector)
        requires
            v == (b0 as u16) | ((b1 as u16) << 8u16),
    ;
    assert(le_bytes_u16(v) =~= s);
}

/// Writing back the value eight bytes spell gives the same eight bytes.
pub proof fn lemma_u64_bytes_roundtrip(s: Seq<u8>)
    requires
        s.len() == 8,
    ensures
        le_bytes_u64(u64_from_le(s)) == s,
{
    let b0 = s[0];
    let b1 = s[1];
    let b2 = s[2];
    let b3 = s[3];
    let b4 = s[4];
    let b5 = s[5];
    let b6 = s[6];
    let b7 = s[7];
    let v = u64_from_le(s);
    assert((v & 0xff) as u8 == b0 && ((v >> 8u64) & 0xff) as u8 == b1 && ((v >> 16u64) & 0xff) as u8
        == b2 && ((v >> 24u64) & 0xff) as u8 == b3 && ((v >> 32u64) & 0xff) as u8 == b4 && ((v
        >> 40u64) & 0xff) as u8 == b5 && ((v >> 48u64) & 0xff) as u8 == b6 && ((v >> 56u64)
        & 0xff) as u8 == b7) by (bit_vector)
        requires
            v == (b0 as u64) | ((b1 as u64) << 8u64) | ((b2 as u64) << 16u64) | ((b3 as u64)
                << 24u64) | ((b4 as u64) << 32u64) | ((b5 as u64) << 40u64) | ((b6 as u64)
                << 48u64) | ((b7 as u64) << 56u64),
    ;
    assert(le_bytes_u64(v) =~= s);
}

/// Writing back the signed value eight bytes spell gives the same eight bytes.
pub proof fn lemma_i64_bytes_roundtrip(s: Seq<u8>)
    requires
        s.len() == 8,
    ensures
        le_bytes_i64(i64_from_le(s)) == s,
{
    let v = u64_from_le(s);
    assert(((v as i64) as u64) == v) by (bit_vector);
    lemma_u64_bytes_roundtrip(s);
}

/// When the upper four of eight bytes are zero, the value they spell fits in 32 bits.
pub proof fn lemma_u64_from_le_fits_u32(s: Seq<u8>)
    requires
        s.len() == 8,
        s[4] == 0,
        s[5] == 0,
        s[6] == 0,
        s[7] == 0,
    ensures
        u64_from_le(s) <= u32::MAX,
{
    let b0 = s[0];
    let b1 = s[1];
    let b2 = s[2];
    let b3 = s[3];
    let v = u64_from_le(s);
    assert(v <= 0xffff_ffffu64) by (bit_vector)
        requires
            v == (b0 as u64) | ((b1 as u64) << 8u64) | ((b2 as u64) << 16u64) | ((b3 as u64)
                << 24u64) | ((0u8 as u64) << 32u64) | ((0u8 as u64) << 40u64) | ((0u8 as u64)
                << 48u64) | ((0u8 as u64) << 56u64),
    ;
}

/// Writes `src` into `buf` starting at `at`, leaving every other byte as it was.
pub fn write_slice(buf: &mut [u8; 128], at: usize, src: &[u8])
    requires
        at + src@.len() <= 128,
    ensures
        final(buf)@ == old(buf)@.subrange(0, at as int) + src@ + old(buf)@.subrange(
            at + src@.len(),
            128,
        ),
{
    let mut i: usize = 0;
    while i < src.len()
        invariant
            at + src@.len() <= 128,
            i <= src@.len(),
            buf@.len() == 128,
            forall|k: int|
                0 <= k < 128 ==> #[trigger] buf@[k] == (if at <= k < at + i {
                    src@[k - at]
                } else {
                    old(buf)@[k]
                }),
        decreases src@.len() - i,
    {
        buf[at + i] = src[i];
        i += 1;
    }
    assert(buf@ =~= old(buf)@.subrange(0, at as int) + src@ + old(buf)@.subrange(
        at + src@.len(),
        128,
    ));
}

/// Writes the little-endian bytes of `v` at `at`.
pub fn write_u16_le(buf: &mut [u8; 128], at: usize, v: u16)
    requires
        at + 2 <= 128,
    ensures
        final(buf)@ == old(buf)@.subrange(0, at as int) + le_bytes_u16(v) + old(buf)@.subrange(
            at + 2,
            128,
        ),
{
    let bytes: [u8; 2] = [(v & 0xff) as u8, ((v >> 8u16) & 0xff) as u8];
    assert(bytes@ =~= le_bytes_u16(v));
    write_slice(buf, at, &bytes);
}

/// Writes the little-endian bytes of `v` at `at`.
pub fn write_u64_le(buf: &mut [u8; 128], at: usize, v: u64)
    requires
        at + 8 <= 128,
    ensures
        final(buf)@ == old(buf)@.subrange(0, at as int) + le_bytes_u64(v) + old(buf)@.subrange(
            at + 8,
            128,
        ),
{
    let bytes: [u8; 8] = [
        (v & 0xff) as u8,
        ((v >> 8u64) & 0xff) as u8,
        ((v >> 16u64) & 0xff) as u8,
        ((v >> 24u64) & 0xff) as u8,
        ((v >> 32u64) & 0xff) as u8,
        ((v >> 40u64) & 0xff) as u8,
        ((v >> 48u64) & 0xff) as u8,
        ((v >> 56u64) & 0xff) as u8,
    ];
    assert(bytes@ =~= le_bytes_u64(v));
    write_slice(buf, at, &bytes);
}

/// Writes the little-endian two's-complement bytes of `v` at `at`.
pub fn write_i64_le(buf: &mut [u8; 128], at: usize, v: i64)
    requires
        at + 8 <= 128,
    ensures
        final(buf)@ == old(buf)@.subrange(0, at as int) + le_bytes_i64(v) + old(buf)@.subrange(
            at + 8,
            128,
        ),
{
    write_u64_le(buf, at, v as u64);
}

/// The value of the two little-endian bytes at `at`.
pub fn read_u16_le(buf: &[u8; 128], at: usize) -> (r: u16)
    requires
        at + 2 <= 128,
    ensures
        r == u16_from_le(buf@.subrange(at as int, at + 2)),
{
    let b0 = buf[at];
    let b1 = buf[at + 1];
    let r = (b0 as u16) | ((b1 as u16) << 8u16);
    let ghost s = buf@.subrange(at as int, at + 2);
    assert(s[0] == b0 && s[1] == b1);
    r
}

/// The value of the eight little-endian bytes at `at`.
pub fn read_u64_le(buf: &[u8; 128], at: usize) -> (r: u64)
    requires
        at + 8 <= 128,
    ensures
        r == u64_from_le(buf@.subrange(at as int, at + 8)),
{
    let b0 = buf[at];
    let b1 = buf[at + 1];
    let b2 = buf[at + 2];
    let b3 = buf[at + 3];
    let b4 = buf[at + 4];
    let b5 = buf[at + 5];
    let b6 = buf[at + 6];
    let b7 = buf[at + 7];
    let r = (b0 as u64) | ((b1 as u64) << 8u64) | ((b2 as u64) << 16u64) | ((b3 as u64) << 24u64)
        | ((b4 as u64) << 32u64) | ((b5 as u64) << 40u64) | ((b6 as u64) << 48u64) | ((
    b7 as u64) << 56u64);
    let ghost s = buf@.subrange(at as int, at + 8);
    assert(s[0] == b0 && s[1] == b1 && s[2] == b2 && s[3] == b3);
    assert(s[4] == b4 && s[5] == b5 && s[6] == b6 && s[7] == b7);
    r
}

/// The two's-complement value of the eight little-endian bytes at `at`.
pub fn read_i64_le(buf: &[u8; 128], at: usize) -> (r: i64)
    requires
        at + 8 <= 128,
    ensures
        r == i64_from_le(buf@.subrange(at as int, at + 8)),
{
    read_u64_le(buf, at) as i64
}

/// The 32 bytes of `buf` starting at `at`.
pub fn read_array32(buf: &[u8; 128], at: usize) -> (r: [u8; 32])
    requires
        at + 32 <= 128,
    ensures
        r@ == buf@.subrange(at as int, at + 32),
{
    let mut r = [0u8; 32];
    let mut i: usize = 0;
    while i < 32
        invariant
            at + 32 <= 128,
            i <= 32,
            r@.len() == 32,
            forall|k: int| 0 <= k < i ==> #[trigger] r@[k] == buf@[at + k],
        decreases 32 - i,
    {
        r[i] = buf[at + i];
        i += 1;
    }
    assert(r@ =~= buf@.subrange(at as int, at + 32));
    r
}

} // verus!
