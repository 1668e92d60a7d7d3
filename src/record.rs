//! The persisted record of a surface: its geometry record, its bones and whether
//! its material is copied on clone.
//!
//! Layout: the geometry record's length as a little-endian `u32` and its bytes,
//! the bone count as a little-endian `u32`, each bone's index and generation as
//! little-endian `u32`s, then one byte (0 or 1) for the unique-material flag.
//! Older records end before that byte; they read as `false`.

use vstd::prelude::*;
use crate::bytes::{
    le_u32, lemma_le_round_trip, lemma_words_le_index, lemma_words_le_len, push_u32_le,
    push_words_le, read_u32_le, u32_le, words_le,
};
use crate::persist::{LoadError, word_at};
use crate::weights::ErasedHandle;

verus! {

/// A surface record, decoded.
#[derive(Clone, Debug)]
pub struct SurfaceRecord {
    /// The persisted geometry record.
    pub data: Vec<u8>,
    pub bones: Vec<ErasedHandle>,
    pub unique_material: bool,
}

/// What a surface record holds.
pub ghost struct RecordModel {
    pub data: Seq<u8>,
    pub bones: Seq<ErasedHandle>,
    pub unique_material: bool,
}

impl SurfaceRecord {
    pub open spec fn model(&self) -> RecordModel {
        RecordModel { data: self.data@, bones: self.bones@, unique_material: self.unique_material }
    }
}

/// Index and generation of each bone, one bone after the other.
pub open spec fn bone_words(bs: Seq<ErasedHandle>) -> Seq<u32>
    decreases bs.len(),
{
    if bs.len() == 0 {
        Seq::empty()
    } else {
        bone_words(bs.drop_last()) + seq![bs.last().index, bs.last().generation]
    }
}

pub open spec fn record_spec(m: RecordModel) -> Seq<u8> {
    u32_le(m.data.len() as u32) + m.data + u32_le(m.bones.len() as u32) + words_le(bone_words(m.bones))
        + seq![if m.unique_material { 1u8 } else { 0u8 }]
}

pub open spec fn bones_at(b: Seq<u8>, p: int, count: nat) -> Seq<ErasedHandle> {
    Seq::new(count, |i: int| ErasedHandle { index: word_at(b, p + 8 * i), generation: word_at(b, p + 8 * i + 4) })
}

/// What reading the surface record `b` yields.
pub open spec fn decode_record_spec(b: Seq<u8>) -> Result<RecordModel, LoadError> {
    if b.len() < 4 {
        Err(LoadError::Truncated)
    } else {
        let dl = word_at(b, 0) as int;
        if b.len() < 8 + dl {
            Err(LoadError::Truncated)
        } else {
            let bc = word_at(b, 4 + dl) as int;
            let end = 8 + dl + 8 * bc;
            if b.len() < end {
                Err(LoadError::Truncated)
            } else {
                let data = b.subrange(4, 4 + dl);
                let bones = bones_at(b, 8 + dl, bc as nat);
                if b.len() == end {
                    Ok(RecordModel { data, bones, unique_material: false })
                } else if b.len() > end + 1 {
                    Err(LoadError::TrailingBytes)
                } else if b[end] > 1 {
                    Err(LoadError::InvalidFlag)
                } else {
                    Ok(RecordModel { data, bones, unique_material: b[end] == 1 })
                }
            }
        }
    }
}

proof fn lemma_bone_words_len(bs: Seq<ErasedHandle>)
    ensures
        bone_words(bs).len() == 2 * bs.len(),
    decreases bs.len(),
{
    if bs.len() > 0 {
        lemma_bone_words_len(bs.drop_last());
    }
}

proof fn lemma_bone_words_index(bs: Seq<ErasedHandle>, i: int)
    requires
        0 <= i < bs.len(),
    ensures
        bone_words(bs).len() == 2 * bs.len(),
        bone_words(bs)[2 * i] == bs[i].index,
        bone_words(bs)[2 * i + 1] == bs[i].generation,
    decreases bs.len(),
{
    lemma_bone_words_len(bs);
    lemma_bone_words_len(bs.drop_last());
    if i < bs.len() - 1 {
        lemma_bone_words_index(bs.drop_last(), i);
    }
}

proof fn lemma_word_of(b: Seq<u8>, p: int, ws: Seq<u32>, i: int)
    requires
        0 <= i < ws.len(),
        forall|k: int| 0 <= k < 4 ==> b[p + k] == #[trigger] words_le(ws)[4 * i + k],
    ensures
        word_at(b, p) == ws[i],
{
    lemma_words_le_index(ws, i, 0);
    lemma_words_le_index(ws, i, 1);
    lemma_words_le_index(ws, i, 2);
    lemma_words_le_index(ws, i, 3);
    assert(b[p] == words_le(ws)[4 * i + 0]);
    assert(b[p + 1] == words_le(ws)[4 * i + 1]);
    assert(b[p + 2] == words_le(ws)[4 * i + 2]);
    assert(b[p + 3] == words_le(ws)[4 * i + 3]);
    lemma_le_round_trip(ws[i]);
}

/// The record without its unique-material byte, as older records are.
pub open spec fn record_body_spec(m: RecordModel) -> Seq<u8> {
    u32_le(m.data.len() as u32) + m.data + u32_le(m.bones.len() as u32) + words_le(bone_words(m.bones))
}

/// Bytes that begin with the body of `m` parse into `m`'s geometry record and bones.
proof fn lemma_record_parts(m: RecordModel, b: Seq<u8>)
    requires
        m.data.len() <= u32::MAX,
        m.bones.len() <= u32::MAX,
        b.len() >= record_body_spec(m).len(),
        b.subrange(0, record_body_spec(m).len() as int) == record_body_spec(m),
    ensures
        record_body_spec(m).len() == 8 + m.data.len() + 8 * m.bones.len(),
        word_at(b, 0) == m.data.len(),
        word_at(b, 4 + m.data.len() as int) == m.bones.len(),
        b.subrange(4, 4 + m.data.len() as int) == m.data,
        bones_at(b, 8 + m.data.len() as int, m.bones.len()) == m.bones,
{
    let body = record_body_spec(m);
    let dl = m.data.len() as int;
    let bc = m.bones.len() as int;
    let a1 = u32_le(dl as u32);
    let a2 = u32_le(bc as u32);
    let w = bone_words(m.bones);
    let f = words_le(w);
    lemma_bone_words_len(m.bones);
    lemma_words_le_len(w);
    lemma_le_round_trip(dl as u32);
    lemma_le_round_trip(bc as u32);
    assert forall|i: int| 0 <= i < body.len() implies b[i] == #[trigger] body[i] by {
        assert(b.subrange(0, body.len() as int)[i] == b[i]);
    }
    assert(body.len() == 8 + dl + 8 * bc);
    assert(body[0] == a1[0] && body[1] == a1[1] && body[2] == a1[2] && body[3] == a1[3]);
    assert(b[0] == a1[0] && b[1] == a1[1] && b[2] == a1[2] && b[3] == a1[3]);
    let p = 4 + dl;
    assert(body[p] == a2[0] && body[p + 1] == a2[1] && body[p + 2] == a2[2] && body[p + 3] == a2[3]);
    assert(b[p] == a2[0] && b[p + 1] == a2[1] && b[p + 2] == a2[2] && b[p + 3] == a2[3]);
    assert forall|i: int| 0 <= i < dl implies #[trigger] b.subrange(4, 4 + dl)[i] == m.data[i] by {
        assert(body[4 + i] == m.data[i]);
        assert(b[4 + i] == body[4 + i]);
    }
    assert(b.subrange(4, 4 + dl) =~= m.data);
    let q = 8 + dl;
    let bones = bones_at(b, q, bc as nat);
    assert forall|i: int| 0 <= i < bc implies #[trigger] bones[i] == m.bones[i] by {
        lemma_bone_words_index(m.bones, i);
        assert forall|k: int| 0 <= k < 4 implies b[q + 8 * i + k] == #[trigger] f[4 * (2 * i) + k] by {
            assert(b[q + 8 * i + k] == body[q + 8 * i + k]);
        }
        lemma_word_of(b, q + 8 * i, w, 2 * i);
        assert forall|k: int| 0 <= k < 4 implies b[q + 8 * i + 4 + k] == #[trigger] f[4 * (2 * i + 1) + k] by {
            assert(b[q + 8 * i + 4 + k] == body[q + 8 * i + 4 + k]);
        }
        lemma_word_of(b, q + 8 * i + 4, w, 2 * i + 1);
    }
    assert(bones =~= m.bones);
}

/// Reading a written surface record gives back its geometry record, bones and flag.
pub proof fn lemma_record_round_trip(m: RecordModel)
    requires
        m.data.len() <= u32::MAX,
        m.bones.len() <= u32::MAX,
    ensures
        decode_record_spec(record_spec(m)) == Ok::<RecordModel, LoadError>(m),
{
    let b = record_spec(m);
    let body = record_body_spec(m);
    assert(b =~= body + seq![if m.unique_material { 1u8 } else { 0u8 }]);
    assert(b.subrange(0, body.len() as int) =~= body);
    lemma_record_parts(m, b);
    assert(b[body.len() as int] == if m.unique_material { 1u8 } else { 0u8 });
}

/// A record written before the unique-material flag existed reads with the flag
/// unset.
pub proof fn lemma_record_without_flag(m: RecordModel)
    requires
        m.data.len() <= u32::MAX,
        m.bones.len() <= u32::MAX,
    ensures
        decode_record_spec(record_body_spec(m))
            == Ok::<RecordModel, LoadError>(RecordModel { unique_material: false, ..m }),
{
    let body = record_body_spec(m);
    assert(body.subrange(0, body.len() as int) =~= body);
    lemma_record_parts(m, body);
}

impl SurfaceRecord {
    /// The persisted bytes of the record.
    pub fn save(&self) -> (r: Vec<u8>)
        requires
            self.data@.len() <= u32::MAX,
            self.bones@.len() <= u32::MAX,
        ensures
            r@ == record_spec(self.model()),
    {
        let mut out: Vec<u8> = Vec::new();
        push_u32_le(&mut out, self.data.len() as u32);
        let mut i: usize = 0;
        let ghost head = out@;
        while i < self.data.len()
            invariant
                0 <= i <= self.data@.len(),
                out@ == head + self.data@.subrange(0, i as int),
            decreases self.data@.len() - i,
        {
            out.push(self.data[i]);
            i = i + 1;
            assert(out@ =~= head + self.data@.subrange(0, i as int));
        }
        assert(self.data@.subrange(0, self.data@.len() as int) =~= self.data@);
        push_u32_le(&mut out, self.bones.len() as u32);
        let mut words: Vec<u32> = Vec::new();
        let mut j: usize = 0;
        while j < self.bones.len()
            invariant
                0 <= j <= self.bones@.len(),
                words@ == bone_words(self.bones@.subrange(0, j as int)),
            decreases self.bones@.len() - j,
        {
            words.push(self.bones[j].index);
            words.push(self.bones[j].generation);
            proof {
                assert(self.bones@.subrange(0, j + 1).drop_last() =~= self.bones@.subrange(0, j as int));
            }
            j = j + 1;
            assert(words@ =~= bone_words(self.bones@.subrange(0, j as int)));
        }
        assert(self.bones@.subrange(0, self.bones@.len() as int) =~= self.bones@);
        push_words_le(&mut out, words.as_slice());
        out.push(if self.unique_material { 1u8 } else { 0u8 });
        assert(out@ =~= record_spec(self.model()));
        out
    }

    /// Reads a surface record; one that ends before the unique-material byte reads
    /// with the flag unset.
    pub fn load(bytes: &[u8]) -> (r: Result<SurfaceRecord, LoadError>)
        ensures
            match r {
                Ok(rec) => decode_record_spec(bytes@) == Ok::<RecordModel, LoadError>(rec.model()),
                Err(e) => decode_record_spec(bytes@) == Err::<RecordModel, LoadError>(e),
            },
    {
        let n = bytes.len();
        if n < 4 {
            return Err(LoadError::Truncated);
        }
        let dl = read_u32_le(bytes, 0) as usize;
        if (n as u64) < 8 + (dl as u64) {
            return Err(LoadError::Truncated);
        }
        let bc = read_u32_le(bytes, 4 + dl);
        let end64: u64 = 8 + (dl as u64) + 8 * (bc as u64);
        if (n as u64) < end64 {
            return Err(LoadError::Truncated);
        }
        let end = end64 as usize;
        let unique_material = if n == end {
            false
        } else if n > end + 1 {
            return Err(LoadError::TrailingBytes);
        } else if bytes[end] > 1 {
            return Err(LoadError::InvalidFlag);
        } else {
            bytes[end] == 1
        };
        let mut data: Vec<u8> = Vec::new();
        let mut i: usize = 0;
        while i < dl
            invariant
                n == bytes@.len(),
                8 + dl <= n,
                0 <= i <= dl,
                data@ == bytes@.subrange(4, 4 + i),
            decreases dl - i,
        {
            data.push(bytes[4 + i]);
            i = i + 1;
            assert(data@ =~= bytes@.subrange(4, 4 + i));
        }
        let q = 8 + dl;
        let mut bones: Vec<ErasedHandle> = Vec::new();
        let mut j: u32 = 0;
        while j < bc
            invariant
                n == bytes@.len(),
                q == 8 + dl,
                end == q + 8 * bc,
                end <= n,
                0 <= j <= bc,
                bones@ == bones_at(bytes@, q as int, bc as nat).subrange(0, j as int),
            decreases bc - j,
        {
            let o: usize = q + 8 * (j as usize);
            bones.push(ErasedHandle { index: read_u32_le(bytes, o), generation: read_u32_le(bytes, o + 4) });
            j = j + 1;
            assert(bones@ =~= bones_at(bytes@, q as int, bc as nat).subrange(0, j as int));
        }
        assert(bones@ =~= bones_at(bytes@, q as int, bc as nat));
        Ok(SurfaceRecord { data, bones, unique_material })
    }
}

} // verus!
