//! Fixed-width integer layouts in byte sequences: big-endian for packet
//! headers, little-endian for synthetic codec payloads.

use vstd::prelude::*;

verus! {

/// Big-endian bytes of a `u16`.
pub open spec fn be16(x: u16) -> Seq<u8> {
    seq![(x >> 8u16) as u8, x as u8]
}

/// Big-endian bytes of a `u32`.
pub open spec fn be32(x: u32) -> Seq<u8> {
    seq![(x >> 24u32) as u8, (x >> 16u32) as u8, (x >> 8u32) as u8, x as u8]
}

/// Big-endian bytes of a `u64`.
pub open spec fn be64(x: u64) -> Seq<u8> {
    seq![
        (x >> 56u64) as u8,
        (x >> 48u64) as u8,
        (x >> 40u64) as u8,
        (x >> 32u64) as u8,
        (x >> 24u64) as u8,
        (x >> 16u64) as u8,
        (x >> 8u64) as u8,
        x as u8,
    ]
}

/// The `u16` whose big-endian bytes start at `pos`.
pub open spec fn read_be16(s: Seq<u8>, pos: int) -> u16 {
    ((s[pos] as u16) << 8u16) | (s[pos + 1] as u16)
}

/// The `u32` whose big-endian bytes start at `pos`.
pub open spec fn read_be32(s: Seq<u8>, pos: int) -> u32 {
    ((s[pos] as u32) << 24u32) | ((s[pos + 1] as u32) << 16u32) | ((s[pos + 2] as u32) << 8u32)
        | (s[pos + 3] as u32)
}

/// The `u64` whose big-endian bytes start at `pos`.
pub open spec fn read_be64(s: Seq<u8>, pos: int) -> u64 {
    ((s[pos] as u64) << 56u64) | ((s[pos + 1] as u64) << 48u64) | ((s[pos + 2] as u64) << 40u64)
        | ((s[pos + 3] as u64) << 32u64) | ((s[pos + 4] as u64) << 24u64) | ((s[pos + 5] as u64)
        << 16u64) | ((s[pos + 6] as u64) << 8u64) | (s[pos + 7] as u64)
}

/// Little-endian bytes of a `u16`.
pub open spec fn le16(x: u16) -> Seq<u8> {
    seq![x as u8, (x >> 8u16) as u8]
}

/// Little-endian bytes of a `u32`.
pub open spec fn le32(x: u32) -> Seq<u8> {
    seq![x as u8, (x >> 8u32) as u8, (x >> 16u32) as u8, (x >> 24u32) as u8]
}

/// Little-endian bytes of a `u64`.
pub open spec fn le64(x: u64) -> Seq<u8> {
    seq![
        x as u8,
        (x >> 8u64) as u8,
        (x >> 16u64) as u8,
        (x >> 24u64) as u8,
        (x >> 32u64) as u8,
        (x >> 40u64) as u8,
        (x >> 48u64) as u8,
        (x >> 56u64) as u8,
    ]
}

/// The `u16` whose little-endian bytes start at `pos`.
pub open spec fn read_le16(s: Seq<u8>, pos: int) -> u16 {
    (s[pos] as u16) | ((s[pos + 1] as u16) << 8u16)
}

/// The `u32` whose little-endian bytes start at `pos`.
pub open spec fn read_le32(s: Seq<u8>, pos: int) -> u32 {
    (s[pos] as u32) | ((s[pos + 1] as u32) << 8u32) | ((s[pos + 2] as u32) << 16u32) | ((s[pos
        + 3] as u32) << 24u32)
}

/// The `u64` whose little-endian bytes start at `pos`.
pub open spec fn read_le64(s: Seq<u8>, pos: int) -> u64 {
    (s[pos] as u64) | ((s[pos + 1] as u64) << 8u64) | ((s[pos + 2] as u64) << 16u64) | ((s[pos
        + 3] as u64) << 24u64) | ((s[pos + 4] as u64) << 32u64) | ((s[pos + 5] as u64) << 40u64)
        | ((s[pos + 6] as u64) << 48u64) | ((s[pos + 7] as u64) << 56u64)
}

pub proof fn lemma_be16_round_trip(x: u16)
    ensures
        forall|s: Seq<u8>, pos: int|
            0 <= pos && pos + 2 <= s.len() && s.subrange(pos, pos + 2) == be16(x) ==> read_be16(
                s,
                pos,
            ) == x,
{
    assert((((x >> 8u16) as u8) as u16) << 8u16 | ((x as u8) as u16) == x) by (bit_vector);
    assert forall|s: Seq<u8>, pos: int|
        0 <= pos && pos + 2 <= s.len() && s.subrange(pos, pos + 2) == be16(
            x,
        ) implies read_be16(s, pos) == x by {
        assert(s[pos] == s.subrange(pos, pos + 2)[0]);
        assert(s[pos + 1] == s.subrange(pos, pos + 2)[1]);
    }
}

pub proof fn lemma_be32_round_trip(x: u32)
    ensures
        forall|s: Seq<u8>, pos: int|
            0 <= pos && pos + 4 <= s.len() && s.subrange(pos, pos + 4) == be32(x) ==> read_be32(
                s,
                pos,
            ) == x,
{
    assert((((x >> 24u32) as u8) as u32) << 24u32 | (((x >> 16u32) as u8) as u32) << 16u32 | (((x
        >> 8u32) as u8) as u32) << 8u32 | ((x as u8) as u32) == x) by (bit_vector);
    assert forall|s: Seq<u8>, pos: int|
        0 <= pos && pos + 4 <= s.len() && s.subrange(pos, pos + 4) == be32(
            x,
        ) implies read_be32(s, pos) == x by {
        let t = s.subrange(pos, pos + 4);
        assert(s[pos] == t[0] && s[pos + 1] == t[1] && s[pos + 2] == t[2] && s[pos + 3] == t[3]);
    }
}

pub proof fn lemma_be64_round_trip(x: u64)
    ensures
        forall|s: Seq<u8>, pos: int|
            0 <= pos && pos + 8 <= s.len() && s.subrange(pos, pos + 8) == be64(x) ==> read_be64(
                s,
                pos,
            ) == x,
{
    assert((((x >> 56u64) as u8) as u64) << 56u64 | (((x >> 48u64) as u8) as u64) << 48u64 | (((x
        >> 40u64) as u8) as u64) << 40u64 | (((x >> 32u64) as u8) as u64) << 32u64 | (((x
        >> 24u64) as u8) as u64) << 24u64 | (((x >> 16u64) as u8) as u64) << 16u64 | (((x
        >> 8u64) as u8) as u64) << 8u64 | ((x as u8) as u64) == x) by (bit_vector);
    assert forall|s: Seq<u8>, pos: int|
        0 <= pos && pos + 8 <= s.len() && s.subrange(pos, pos + 8) == be64(
            x,
        ) implies read_be64(s, pos) == x by {
        let t = s.subrange(pos, pos + 8);
        assert(s[pos] == t[0] && s[pos + 1] == t[1] && s[pos + 2] == t[2] && s[pos + 3] == t[3]);
        assert(s[pos + 4] == t[4] && s[pos + 5] == t[5] && s[pos + 6] == t[6] && s[pos + 7]
            == t[7]);
    }
}

pub proof fn lemma_i64_bits_round_trip(x: i64)
    ensures
        (x as u64) as i64 == x,
{
    assert((x as u64) as i64 == x) by (bit_vector);
}

pub proof fn lemma_le16_round_trip(x: u16)
    ensures
        forall|s: Seq<u8>, pos: int|
            0 <= pos && pos + 2 <= s.len() && s.subrange(pos, pos + 2) == le16(x) ==> read_le16(
                s,
                pos,
            ) == x,
{
    assert(((x as u8) as u16) | (((x >> 8u16) as u8) as u16) << 8u16 == x) by (bit_vector);
    assert forall|s: Seq<u8>, pos: int|
        0 <= pos && pos + 2 <= s.len() && s.subrange(pos, pos + 2) == le16(
            x,
        ) implies read_le16(s, pos) == x by {
        assert(s[pos] == s.subrange(pos, pos + 2)[0]);
        assert(s[pos + 1] == s.subrange(pos, pos + 2)[1]);
    }
}

pub proof fn lemma_le32_round_trip(x: u32)
    ensures
        forall|s: Seq<u8>, pos: int|
            0 <= pos && pos + 4 <= s.len() && s.subrange(pos, pos + 4) == le32(x) ==> read_le32(
                s,
                pos,
            ) == x,
{
    assert(((x as u8) as u32) | (((x >> 8u32) as u8) as u32) << 8u32 | (((x >> 16u32) as u8)
        as u32) << 16u32 | (((x >> 24u32) as u8) as u32) << 24u32 == x) by (bit_vector);
    assert forall|s: Seq<u8>, pos: int|
        0 <= pos && pos + 4 <= s.len() && s.subrange(pos, pos + 4) == le32(
            x,
        ) implies read_le32(s, pos) == x by {
        let t = s.subrange(pos, pos + 4);
        assert(s[pos] == t[0] && s[pos + 1] == t[1] && s[pos + 2] == t[2] && s[pos + 3] == t[3]);
    }
}

pub proof fn lemma_le64_round_trip(x: u64)
    ensures
        forall|s: Seq<u8>, pos: int|
            0 <= pos && pos + 8 <= s.len() && s.subrange(pos, pos + 8) == le64(x) ==> read_le64(
                s,
                pos,
            ) == x,
{
    assert(((x as u8) as u64) | (((x >> 8u64) as u8) as u64) << 8u64 | (((x >> 16u64) as u8)
        as u64) << 16u64 | (((x >> 24u64) as u8) as u64) << 24u64 | (((x >> 32u64) as u8) as u64)
        << 32u64 | (((x >> 40u64) as u8) as u64) << 40u64 | (((x >> 48u64) as u8) as u64)
        << 48u64 | (((x >> 56u64) as u8) as u64) << 56u64 == x) by (bit_vector);
    assert forall|s: Seq<u8>, pos: int|
        0 <= pos && pos + 8 <= s.len() && s.subrange(pos, pos + 8) == le64(
            x,
        ) implies read_le64(s, pos) == x by {
        let t = s.subrange(pos, pos + 8);
        assert(s[pos] == t[0] && s[pos + 1] == t[1] && s[pos + 2] == t[2] && s[pos + 3] == t[3]);
        assert(s[pos + 4] == t[4] && s[pos + 5] == t[5] && s[pos + 6] == t[6] && s[pos + 7]
            == t[7]);
    }
}

pub fn put_u8(dst: &mut Vec<u8>, x: u8)
    ensures
        final(dst)@ == old(dst)@.push(x),
{
    dst.push(x);
}

pub fn put_be16(dst: &mut Vec<u8>, x: u16)
    ensures
        final(dst)@ == old(dst)@ + be16(x),
{
    dst.push((x >> 8u16) as u8);
    dst.push(x as u8);
    assert(dst@ =~= old(dst)@ + be16(x));
}

pub fn put_be32(dst: &mut Vec<u8>, x: u32)
    ensures
        final(dst)@ == old(dst)@ + be32(x),
{
    dst.push((x >> 24u32) as u8);
    dst.push((x >> 16u32) as u8);
    dst.push((x >> 8u32) as u8);
    dst.push(x as u8);
    assert(dst@ =~= old(dst)@ + be32(x));
}

pub fn put_be64(dst: &mut Vec<u8>, x: u64)
    ensures
        final(dst)@ == old(dst)@ + be64(x),
{
    dst.push((x >> 56u64) as u8);
    dst.push((x >> 48u64) as u8);
    dst.push((x >> 40u64) as u8);
    dst.push((x >> 32u64) as u8);
    dst.push((x >> 24u64) as u8);
    dst.push((x >> 16u64) as u8);
    dst.push((x >> 8u64) as u8);
    dst.push(x as u8);
    assert(dst@ =~= old(dst)@ + be64(x));
}

pub fn put_le16(dst: &mut Vec<u8>, x: u16)
    ensures
        final(dst)@ == old(dst)@ + le16(x),
{
    dst.push(x as u8);
    dst.push((x >> 8u16) as u8);
    assert(dst@ =~= old(dst)@ + le16(x));
}

pub fn put_le32(dst: &mut Vec<u8>, x: u32)
    ensures
        final(dst)@ == old(dst)@ + le32(x),
{
    dst.push(x as u8);
    dst.push((x >> 8u32) as u8);
    dst.push((x >> 16u32) as u8);
    dst.push((x >> 24u32) as u8);
    assert(dst@ =~= old(dst)@ + le32(x));
}

pub fn put_le64(dst: &mut Vec<u8>, x: u64)
    ensures
        final(dst)@ == old(dst)@ + le64(x),
{
    dst.push(x as u8);
    dst.push((x >> 8u64) as u8);
    dst.push((x >> 16u64) as u8);
    dst.push((x >> 24u64) as u8);
    dst.push((x >> 32u64) as u8);
    dst.push((x >> 40u64) as u8);
    dst.push((x >> 48u64) as u8);
    dst.push((x >> 56u64) as u8);
    assert(dst@ =~= old(dst)@ + le64(x));
}

pub fn get_be16(src: &[u8], pos: usize) -> (x: u16)
    requires
        pos + 2 <= src@.len(),
    ensures
        x == read_be16(src@, pos as int),
{
    ((src[pos] as u16) << 8u16) | (src[pos + 1] as u16)
}

pub fn get_be32(src: &[u8], pos: usize) -> (x: u32)
    requires
        pos + 4 <= src@.len(),
    ensures
        x == read_be32(src@, pos as int),
{
    ((src[pos] as u32) << 24u32) | ((src[pos + 1] as u32) << 16u32) | ((src[pos + 2] as u32)
        << 8u32) | (src[pos + 3] as u32)
}

pub fn get_be64(src: &[u8], pos: usize) -> (x: u64)
    requires
        pos + 8 <= src@.len(),
    ensures
        x == read_be64(src@, pos as int),
{
    ((src[pos] as u64) << 56u64) | ((src[pos + 1] as u64) << 48u64) | ((src[pos + 2] as u64)
        << 40u64) | ((src[pos + 3] as u64) << 32u64) | ((src[pos + 4] as u64) << 24u64) | ((src[pos
        + 5] as u64) << 16u64) | ((src[pos + 6] as u64) << 8u64) | (src[pos + 7] as u64)
}

pub fn get_le16(src: &[u8], pos: usize) -> (x: u16)
    requires
        pos + 2 <= src@.len(),
    ensures
        x == read_le16(src@, pos as int),
{
    (src[pos] as u16) | ((src[pos + 1] as u16) << 8u16)
}

pub fn get_le32(src: &[u8], pos: usize) -> (x: u32)
    requires
        pos + 4 <= src@.len(),
    ensures
        x == read_le32(src@, pos as int),
{
    (src[pos] as u32) | ((src[pos + 1] as u32) << 8u32) | ((src[pos + 2] as u32) << 16u32) | ((
    src[pos + 3] as u32) << 24u32)
}

pub fn get_le64(src: &[u8], pos: usize) -> (x: u64)
    requires
        pos + 8 <= src@.len(),
    ensures
        x == read_le64(src@, pos as int),
{
    (src[pos] as u64) | ((src[pos + 1] as u64) << 8u64) | ((src[pos + 2] as u64) << 16u64) | ((
    src[pos + 3] as u64) << 24u64) | ((src[pos + 4] as u64) << 32u64) | ((src[pos + 5] as u64)
        << 40u64) | ((src[pos + 6] as u64) << 48u64) | ((src[pos + 7] as u64) << 56u64)
}

} // verus!
