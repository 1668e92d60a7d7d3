//! Little-endian encoding of 32-bit words.

use vstd::prelude::*;

verus! {

/// The four little-endian bytes of `w`.
pub open spec fn u32_le(w: u32) -> Seq<u8> {
    seq![(w & 0xff) as u8, ((w >> 8u32) & 0xff) as u8, ((w >> 16u32) & 0xff) as u8, ((w >> 24u32) & 0xff) as u8]
}

/// The word whose little-endian bytes are `b0 b1 b2 b3`.
pub open spec fn le_u32(b0: u8, b1: u8, b2: u8, b3: u8) -> u32 {
    (b0 as u32) | ((b1 as u32) << 8u32) | ((b2 as u32) << 16u32) | ((b3 as u32) << 24u32)
}

/// The little-endian bytes of each word of `ws`, one word after the other.
pub open spec fn words_le(ws: Seq<u32>) -> Seq<u8>
    decreases ws.len(),
{
    if ws.len() == 0 {
        Seq::empty()
    } else {
        words_le(ws.drop_last()) + u32_le(ws.last())
    }
}

pub proof fn lemma_le_round_trip(w: u32)
    ensures
        le_u32(u32_le(w)[0], u32_le(w)[1], u32_le(w)[2], u32_le(w)[3]) == w,
{
    let b0 = (w & 0xff) as u8;
    let b1 = ((w >> 8u32) & 0xff) as u8;
    let b2 = ((w >> 16u32) & 0xff) as u8;
    let b3 = ((w >> 24u32) & 0xff) as u8;
    assert((b0 as u32) == (w & 0xff)) by (bit_vector)
        requires b0 == (w & 0xff) as u8;
    assert((b1 as u32) == ((w >> 8u32) & 0xff)) by (bit_vector)
        requires b1 == ((w >> 8u32) & 0xff) as u8;
    assert((b2 as u32) == ((w >> 16u32) & 0xff)) by (bit_vector)
        requires b2 == ((w >> 16u32) & 0xff) as u8;
    assert((b3 as u32) == ((w >> 24u32) & 0xff)) by (bit_vector)
        requires b3 == ((w >> 24u32) & 0xff) as u8;
    assert((w & 0xff) | (((w >> 8u32) & 0xff) << 8u32) | (((w >> 16u32) & 0xff) << 16u32) | (((w
        >> 24u32) & 0xff) << 24u32) == w) by (bit_vector);
}

pub proof fn lemma_bytes_round_trip(b0: u8, b1: u8, b2: u8, b3: u8)
    ensures
        u32_le(le_u32(b0, b1, b2, b3)) == seq![b0, b1, b2, b3],
{
    let w = le_u32(b0, b1, b2, b3);
    assert((w & 0xff) as u8 == b0 && ((w >> 8u32) & 0xff) as u8 == b1 && ((w >> 16u32) & 0xff) as u8 == b2
        && ((w >> 24u32) & 0xff) as u8 == b3) by (bit_vector)
        requires w == (b0 as u32) | ((b1 as u32) << 8u32) | ((b2 as u32) << 16u32) | ((b3 as u32) << 24u32);
    assert(u32_le(w) =~= seq![b0, b1, b2, b3]);
}

/// Reads `count` little-endian words starting at `pos`.
pub fn read_words_le(bytes: &[u8], pos: usize, count: usize) -> (r: Vec<u32>)
    requires
        pos + 4 * count <= bytes@.len(),
    ensures
        r@.len() == count,
        words_le(r@) == bytes@.subrange(pos as int, pos + 4 * count),
{
    let mut out: Vec<u32> = Vec::new();
    let blen = bytes.len();
    let mut i: usize = 0;
    while i < count
        invariant
            blen == bytes@.len(),
            pos + 4 * count <= bytes@.len(),
            0 <= i <= count,
            out@.len() == i,
            words_le(out@) == bytes@.subrange(pos as int, pos + 4 * i),
        decreases count - i,
    {
        let p = pos + 4 * i;
        let w = read_u32_le(bytes, p);
        proof {
            lemma_bytes_round_trip(bytes@[p as int], bytes@[p + 1], bytes@[p + 2], bytes@[p + 3]);
        }
        let ghost prev = out@;
        out.push(w);
        proof {
            assert(out@.drop_last() =~= prev);
            assert(bytes@.subrange(pos as int, p + 4) =~= bytes@.subrange(pos as int, p as int) + seq![bytes@[p as int], bytes@[p + 1], bytes@[p + 2], bytes@[p + 3]]);
        }
        i = i + 1;
    }
    out
}

pub proof fn lemma_words_le_len(ws: Seq<u32>)
    ensures
        words_le(ws).len() == 4 * ws.len(),
    decreases ws.len(),
{
    if ws.len() > 0 {
        lemma_words_le_len(ws.drop_last());
    }
}

/// Byte `4 * i + k` of the encoding is byte `k` of word `i`.
pub proof fn lemma_words_le_index(ws: Seq<u32>, i: int, k: int)
    requires
        0 <= i < ws.len(),
        0 <= k < 4,
    ensures
        words_le(ws).len() == 4 * ws.len(),
        words_le(ws)[4 * i + k] == u32_le(ws[i])[k],
    decreases ws.len(),
{
    lemma_words_le_len(ws);
    lemma_words_le_len(ws.drop_last());
    if i < ws.len() - 1 {
        lemma_words_le_index(ws.drop_last(), i, k);
    }
}

/// Appends the four little-endian bytes of `w` to `out`.
pub fn push_u32_le(out: &mut Vec<u8>, w: u32)
    ensures
        final(out)@ == old(out)@ + u32_le(w),
{
    out.push((w & 0xff) as u8);
    out.push(((w >> 8u32) & 0xff) as u8);
    out.push(((w >> 16u32) & 0xff) as u8);
    out.push(((w >> 24u32) & 0xff) as u8);
    assert(final(out)@ =~= old(out)@ + u32_le(w));
}

/// Appends the little-endian bytes of every word of `ws` to `out`.
pub fn push_words_le(out: &mut Vec<u8>, ws: &[u32])
    ensures
        final(out)@ == old(out)@ + words_le(ws@),
{
    let ghost start = out@;
    let mut i: usize = 0;
    while i < ws.len()
        invariant
            0 <= i <= ws@.len(),
            out@ == start + words_le(ws@.subrange(0, i as int)),
        decreases ws@.len() - i,
    {
        push_u32_le(out, ws[i]);
        proof {
            let pre = ws@.subrange(0, i as int);
            let next = ws@.subrange(0, i as int + 1);
            assert(next.drop_last() =~= pre);
            assert(start + words_le(pre) + u32_le(ws@[i as int]) =~= start + (words_le(pre) + u32_le(ws@[i as int])));
        }
        i = i + 1;
    }
    assert(ws@.subrange(0, ws@.len() as int) =~= ws@);
}

/// Reads the word whose little-endian bytes start at `pos`.
pub fn read_u32_le(bytes: &[u8], pos: usize) -> (r: u32)
    requires
        pos + 4 <= bytes@.len(),
    ensures
        r == le_u32(bytes@[pos as int], bytes@[pos + 1], bytes@[pos + 2], bytes@[pos + 3]),
{
    (bytes[pos] as u32) | ((bytes[pos + 1] as u32) << 8u32) | ((bytes[pos + 2] as u32) << 16u32) | ((bytes[pos + 3] as u32) << 24u32)
}

} // verus!

verus! {

/// The two little-endian bytes of `h`.
pub open spec fn u16_le(h: u16) -> Seq<u8> {
    seq![(h & 0xff) as u8, ((h >> 8u16) & 0xff) as u8]
}

/// The little-endian bytes of each half-word of `hs`, one after the other.
pub open spec fn halves_le(hs: Seq<u16>) -> Seq<u8>
    decreases hs.len(),
{
    if hs.len() == 0 {
        Seq::empty()
    } else {
        halves_le(hs.drop_last()) + u16_le(hs.last())
    }
}

pub proof fn lemma_halves_le_len(hs: Seq<u16>)
    ensures
        halves_le(hs).len() == 2 * hs.len(),
    decreases hs.len(),
{
    if hs.len() > 0 {
        lemma_halves_le_len(hs.drop_last());
    }
}

/// Appends the little-endian bytes of every half-word of `hs` to `out`.
pub fn push_halves_le(out: &mut Vec<u8>, hs: &[u16])
    ensures
        final(out)@ == old(out)@ + halves_le(hs@),
{
    let ghost start = out@;
    let mut i: usize = 0;
    while i < hs.len()
        invariant
            0 <= i <= hs@.len(),
            out@ == start + halves_le(hs@.subrange(0, i as int)),
        decreases hs@.len() - i,
    {
        let h = hs[i];
        out.push((h & 0xff) as u8);
        out.push(((h >> 8u16) & 0xff) as u8);
        proof {
            let pre = hs@.subrange(0, i as int);
            assert(hs@.subrange(0, i as int + 1).drop_last() =~= pre);
            assert(out@ =~= start + (halves_le(pre) + u16_le(h)));
        }
        i = i + 1;
    }
    assert(hs@.subrange(0, hs@.len() as int) =~= hs@);
}

} // verus!

verus! {

pub proof fn lemma_words_le_append(a: Seq<u32>, b: Seq<u32>)
    ensures
        words_le(a + b) == words_le(a) + words_le(b),
    decreases b.len(),
{
    if b.len() == 0 {
        assert(a + b =~= a);
        assert(words_le(a) + words_le(b) =~= words_le(a));
    } else {
        lemma_words_le_append(a, b.drop_last());
        assert((a + b).drop_last() =~= a + b.drop_last());
        assert((a + b).last() == b.last());
        assert(words_le(a) + words_le(b) =~= words_le(a) + words_le(b.drop_last()) + u32_le(b.last()));
    }
}

} // verus!
