//! The persisted form of surface data: a procedural flag and, only for procedural
//! data, the vertex buffer and the triangle buffer.
//!
//! Layout: one flag byte (0 or 1). After a 1: the vertex count and the attribute
//! count as little-endian `u32`, five bytes per attribute (usage, data type,
//! components, divisor, shader location), the vertex bytes, the triangle count
//! as a little-endian `u32`, and three little-endian `u32` indices per triangle.

use vstd::prelude::*;
use crate::buffer::{
    TriangleBuffer, TriangleDefinition, ValidationError, VertexAttributeDataType,
    VertexAttributeDescriptor, VertexAttributeUsage, VertexBuffer, VertexBufferModel, descs_of,
    descs_size, has_duplicate_usage, layout_of, model_wf, triangle_words, usages_unique,
};
use crate::bytes::{
    le_u32, lemma_le_round_trip, lemma_words_le_index, lemma_words_le_len, push_u32_le,
    push_words_le, read_u32_le, u32_le, words_le,
};
use crate::surface::SurfaceData;

verus! {

/// Why persisted bytes could not be loaded.
#[derive(Clone, Copy, Debug, PartialEq, Eq, Structural)]
pub enum LoadError {
    /// The bytes end before the record does.
    Truncated,
    /// The flag byte is neither 0 nor 1.
    InvalidFlag,
    /// An attribute names an unknown usage or data type.
    InvalidTag,
    /// The attributes do not form a valid vertex layout.
    Layout(ValidationError),
    /// Bytes follow the end of the record.
    TrailingBytes,
}

/// What persisting keeps of surface data.
pub ghost struct SurfaceModel {
    pub vertices: VertexBufferModel,
    pub triangles: Seq<TriangleDefinition>,
    pub is_procedural: bool,
}

impl SurfaceData {
    pub open spec fn model(&self) -> SurfaceModel {
        SurfaceModel {
            vertices: self.vertex_buffer@,
            triangles: self.geometry_buffer@,
            is_procedural: self.is_procedural,
        }
    }
}

pub open spec fn usage_tag(u: VertexAttributeUsage) -> u8 {
    match u {
        VertexAttributeUsage::Position => 0,
        VertexAttributeUsage::Normal => 1,
        VertexAttributeUsage::Tangent => 2,
        VertexAttributeUsage::TexCoord0 => 3,
        VertexAttributeUsage::TexCoord1 => 4,
        VertexAttributeUsage::Color => 5,
        VertexAttributeUsage::BoneWeight => 6,
        VertexAttributeUsage::BoneIndices => 7,
    }
}

pub open spec fn usage_of_tag(t: u8) -> Option<VertexAttributeUsage> {
    if t == 0 {
        Some(VertexAttributeUsage::Position)
    } else if t == 1 {
        Some(VertexAttributeUsage::Normal)
    } else if t == 2 {
        Some(VertexAttributeUsage::Tangent)
    } else if t == 3 {
        Some(VertexAttributeUsage::TexCoord0)
    } else if t == 4 {
        Some(VertexAttributeUsage::TexCoord1)
    } else if t == 5 {
        Some(VertexAttributeUsage::Color)
    } else if t == 6 {
        Some(VertexAttributeUsage::BoneWeight)
    } else if t == 7 {
        Some(VertexAttributeUsage::BoneIndices)
    } else {
        None
    }
}

pub open spec fn type_tag(d: VertexAttributeDataType) -> u8 {
    match d {
        VertexAttributeDataType::F32 => 0,
        VertexAttributeDataType::U32 => 1,
        VertexAttributeDataType::U16 => 2,
        VertexAttributeDataType::U8 => 3,
    }
}

pub open spec fn type_of_tag(t: u8) -> Option<VertexAttributeDataType> {
    if t == 0 {
        Some(VertexAttributeDataType::F32)
    } else if t == 1 {
        Some(VertexAttributeDataType::U32)
    } else if t == 2 {
        Some(VertexAttributeDataType::U16)
    } else if t == 3 {
        Some(VertexAttributeDataType::U8)
    } else {
        None
    }
}

pub open spec fn desc_bytes(d: VertexAttributeDescriptor) -> Seq<u8> {
    seq![usage_tag(d.usage), type_tag(d.data_type), d.size, d.divisor, d.shader_location]
}

pub open spec fn descs_bytes(ds: Seq<VertexAttributeDescriptor>) -> Seq<u8>
    decreases ds.len(),
{
    if ds.len() == 0 {
        Seq::empty()
    } else {
        descs_bytes(ds.drop_last()) + desc_bytes(ds.last())
    }
}

/// The persisted bytes of `m`.
pub open spec fn encode_spec(m: SurfaceModel) -> Seq<u8> {
    if !m.is_procedural {
        seq![0u8]
    } else {
        seq![1u8] + u32_le(m.vertices.vertex_count as u32) + u32_le(m.vertices.layout.len() as u32)
            + descs_bytes(descs_of(m.vertices.layout)) + m.vertices.data + u32_le(m.triangles.len() as u32)
            + words_le(triangle_words(m.triangles))
    }
}

/// Where the attributes begin.
pub open spec fn attrs_start() -> int {
    9
}

pub open spec fn word_at(b: Seq<u8>, p: int) -> u32 {
    le_u32(b[p], b[p + 1], b[p + 2], b[p + 3])
}

/// The descriptor whose five bytes begin at `p`, if its tags are known.
pub open spec fn desc_at(b: Seq<u8>, p: int) -> Option<VertexAttributeDescriptor> {
    match (usage_of_tag(b[p]), type_of_tag(b[p + 1])) {
        (Some(u), Some(t)) => Some(VertexAttributeDescriptor { usage: u, data_type: t, size: b[p + 2], divisor: b[p + 3], shader_location: b[p + 4] }),
        _ => None,
    }
}

/// The first `n` descriptors of the record, if all their tags are known.
pub open spec fn parse_descs(b: Seq<u8>, n: nat) -> Option<Seq<VertexAttributeDescriptor>>
    decreases n,
{
    if n == 0 {
        Some(Seq::empty())
    } else {
        match parse_descs(b, (n - 1) as nat) {
            None => None,
            Some(ds) => match desc_at(b, attrs_start() + 5 * (n - 1)) {
                None => None,
                Some(d) => Some(ds.push(d)),
            },
        }
    }
}

pub open spec fn triangles_at(b: Seq<u8>, q: int, count: nat) -> Seq<TriangleDefinition> {
    Seq::new(count, |t: int| TriangleDefinition([word_at(b, q + 12 * t), word_at(b, q + 12 * t + 4), word_at(b, q + 12 * t + 8)]))
}

/// What loading a non-procedural record yields: no geometry, to be resolved from
/// the source asset.
pub open spec fn unresolved_model() -> SurfaceModel {
    SurfaceModel {
        vertices: VertexBufferModel { layout: Seq::empty(), vertex_size: 0, vertex_count: 0, data: Seq::empty() },
        triangles: Seq::empty(),
        is_procedural: false,
    }
}

/// What loading `b` yields.
pub open spec fn decode_spec(b: Seq<u8>) -> Result<SurfaceModel, LoadError> {
    if b.len() == 0 {
        Err(LoadError::Truncated)
    } else if b[0] == 0 {
        if b.len() == 1 { Ok(unresolved_model()) } else { Err(LoadError::TrailingBytes) }
    } else if b[0] != 1 {
        Err(LoadError::InvalidFlag)
    } else if b.len() < attrs_start() {
        Err(LoadError::Truncated)
    } else {
        let count = word_at(b, 1);
        let na = word_at(b, 5);
        let p = attrs_start() + 5 * na;
        if b.len() < p {
            Err(LoadError::Truncated)
        } else {
            match parse_descs(b, na as nat) {
                None => Err(LoadError::InvalidTag),
                Some(ds) => if has_duplicate_usage(ds) {
                    Err(LoadError::Layout(ValidationError::DuplicatedAttributeDescriptor))
                } else if descs_size(ds) > 255 {
                    Err(LoadError::Layout(ValidationError::TooLargeVertex))
                } else {
                    let dl = count * descs_size(ds);
                    if b.len() < p + dl + 4 {
                        Err(LoadError::Truncated)
                    } else {
                        let tc = word_at(b, p + dl);
                        let q = p + dl + 4;
                        if b.len() < q + 12 * tc {
                            Err(LoadError::Truncated)
                        } else if b.len() > q + 12 * tc {
                            Err(LoadError::TrailingBytes)
                        } else {
                            Ok(SurfaceModel {
                                vertices: VertexBufferModel {
                                    layout: layout_of(ds),
                                    vertex_size: descs_size(ds),
                                    vertex_count: count as nat,
                                    data: b.subrange(p, p + dl),
                                },
                                triangles: triangles_at(b, q, tc as nat),
                                is_procedural: true,
                            })
                        }
                    }
                }
            }
        }
    }
}

} // verus!

verus! {

/// A layout with distinct usages has at most one attribute per usage.
pub proof fn lemma_layout_len_bound(l: Seq<crate::buffer::VertexAttribute>)
    requires
        usages_unique(l),
    ensures
        l.len() <= 8,
{
    let tags = Seq::new(l.len(), |i: int| usage_tag(l[i].usage) as int);
    assert forall|i: int, j: int| 0 <= i < tags.len() && 0 <= j < tags.len() && i != j implies tags[i] != tags[j] by {
        if tags[i] == tags[j] {
            assert(l[i].usage == l[j].usage);
        }
    }
    assert(tags.no_duplicates());
    tags.unique_seq_to_set();
    vstd::set_lib::lemma_int_range(0, 8);
    assert(tags.to_set().subset_of(vstd::set_lib::set_int_range(0, 8)));
    vstd::set_lib::lemma_len_subset(tags.to_set(), vstd::set_lib::set_int_range(0, 8));
}

proof fn lemma_descs_bytes_index(ds: Seq<VertexAttributeDescriptor>, i: int, j: int)
    requires
        0 <= i < ds.len(),
        0 <= j < 5,
    ensures
        descs_bytes(ds).len() == 5 * ds.len(),
        descs_bytes(ds)[5 * i + j] == desc_bytes(ds[i])[j],
    decreases ds.len(),
{
    lemma_descs_bytes_len(ds);
    lemma_descs_bytes_len(ds.drop_last());
    if i < ds.len() - 1 {
        lemma_descs_bytes_index(ds.drop_last(), i, j);
    }
}

proof fn lemma_descs_bytes_len(ds: Seq<VertexAttributeDescriptor>)
    ensures
        descs_bytes(ds).len() == 5 * ds.len(),
    decreases ds.len(),
{
    if ds.len() > 0 {
        lemma_descs_bytes_len(ds.drop_last());
    }
}

proof fn lemma_triangle_words_len(ts: Seq<TriangleDefinition>)
    ensures
        triangle_words(ts).len() == 3 * ts.len(),
    decreases ts.len(),
{
    if ts.len() > 0 {
        lemma_triangle_words_len(ts.drop_last());
    }
}

proof fn lemma_triangle_words_index(ts: Seq<TriangleDefinition>, t: int, k: int)
    requires
        0 <= t < ts.len(),
        0 <= k < 3,
    ensures
        triangle_words(ts).len() == 3 * ts.len(),
        triangle_words(ts)[3 * t + k] == ts[t].0[k],
    decreases ts.len(),
{
    lemma_triangle_words_len(ts);
    lemma_triangle_words_len(ts.drop_last());
    if t < ts.len() - 1 {
        lemma_triangle_words_index(ts.drop_last(), t, k);
    }
}

/// The descriptors written for a layout are read back in order.
proof fn lemma_parse_descs_prefix(b: Seq<u8>, ds: Seq<VertexAttributeDescriptor>, k: nat)
    requires
        k <= ds.len(),
        b.len() >= attrs_start() + 5 * ds.len(),
        forall|i: int, j: int| 0 <= i < ds.len() && 0 <= j < 5 ==> b[attrs_start() + 5 * i + j] == #[trigger] desc_bytes(ds[i])[j],
    ensures
        parse_descs(b, k) == Some(ds.subrange(0, k as int)),
    decreases k,
{
    if k > 0 {
        lemma_parse_descs_prefix(b, ds, (k - 1) as nat);
        let i = k - 1;
        let p = attrs_start() + 5 * i;
        let d = ds[i];
        assert(b[p] == desc_bytes(d)[0]);
        assert(b[p + 1] == desc_bytes(d)[1]);
        assert(b[p + 2] == desc_bytes(d)[2]);
        assert(b[p + 3] == desc_bytes(d)[3]);
        assert(b[p + 4] == desc_bytes(d)[4]);
        assert(desc_at(b, p) == Some(d));
        assert(ds.subrange(0, i).push(d) =~= ds.subrange(0, k as int));
    }
}

/// Loading what was saved gives back the same vertex buffer, triangles and flag.
pub proof fn lemma_save_load_round_trip(m: SurfaceModel)
    requires
        m.is_procedural,
        model_wf(m.vertices),
        m.triangles.len() <= u32::MAX,
    ensures
        decode_spec(encode_spec(m)) == Ok::<SurfaceModel, LoadError>(m),
{
    let v = m.vertices;
    let ds = descs_of(v.layout);
    lemma_layout_len_bound(v.layout);
    let na = v.layout.len();
    let tc = m.triangles.len();
    let b = encode_spec(m);
    let a1 = u32_le(v.vertex_count as u32);
    let a2 = u32_le(na as u32);
    let c = descs_bytes(ds);
    let e = u32_le(tc as u32);
    let f = words_le(triangle_words(m.triangles));
    lemma_descs_bytes_len(ds);
    lemma_triangle_words_len(m.triangles);
    lemma_words_le_len(triangle_words(m.triangles));
    let p: int = 9 + 5 * (na as int);
    let dl: int = v.data.len() as int;
    let q: int = p + dl + 4;
    assert(b.len() == q + 12 * tc);
    assert(b == seq![1u8] + a1 + a2 + c + v.data + e + f);
    lemma_le_round_trip(v.vertex_count as u32);
    lemma_le_round_trip(na as u32);
    lemma_le_round_trip(tc as u32);
    assert(b[1] == a1[0] && b[2] == a1[1] && b[3] == a1[2] && b[4] == a1[3]);
    assert(word_at(b, 1) == v.vertex_count);
    assert(b[5] == a2[0] && b[6] == a2[1] && b[7] == a2[2] && b[8] == a2[3]);
    assert(word_at(b, 5) == na);
    assert forall|i: int, j: int| 0 <= i < ds.len() && 0 <= j < 5 implies b[attrs_start() + 5 * i + j] == #[trigger] desc_bytes(ds[i])[j] by {
        lemma_descs_bytes_index(ds, i, j);
        assert(b[9 + 5 * i + j] == c[5 * i + j]);
    }
    lemma_parse_descs_prefix(b, ds, na as nat);
    assert(ds.subrange(0, na as int) =~= ds);
    assert(!has_duplicate_usage(ds)) by {
        if has_duplicate_usage(ds) {
            let (i, j) = choose|i: int, j: int| 0 <= i < j < ds.len() && ds[i].usage == ds[j].usage;
            assert(v.layout[i].usage == v.layout[j].usage);
        }
    }
    assert(dl == v.vertex_count * descs_size(ds));
    assert(b.subrange(p, p + dl) =~= v.data);
    assert(b[q - 4] == e[0] && b[q - 3] == e[1] && b[q - 2] == e[2] && b[q - 1] == e[3]);
    assert(word_at(b, p + dl) == tc);
    let ts = triangles_at(b, q, tc);
    assert forall|t: int| 0 <= t < tc implies #[trigger] ts[t] == m.triangles[t] by {
        assert forall|k: int| 0 <= k < 3 implies word_at(b, q + 12 * t + 4 * k) == m.triangles[t].0[k] by {
            let w = triangle_words(m.triangles);
            lemma_triangle_words_index(m.triangles, t, k);
            lemma_words_le_index(w, 3 * t + k, 0);
            lemma_words_le_index(w, 3 * t + k, 1);
            lemma_words_le_index(w, 3 * t + k, 2);
            lemma_words_le_index(w, 3 * t + k, 3);
            let o = q + 12 * t + 4 * k;
            assert(b[o] == f[4 * (3 * t + k)]);
            assert(b[o + 1] == f[4 * (3 * t + k) + 1]);
            assert(b[o + 2] == f[4 * (3 * t + k) + 2]);
            assert(b[o + 3] == f[4 * (3 * t + k) + 3]);
            lemma_le_round_trip(w[3 * t + k]);
        }
        assert(word_at(b, q + 12 * t) == m.triangles[t].0[0]);
        assert(word_at(b, q + 12 * t + 4) == m.triangles[t].0[1]);
        assert(word_at(b, q + 12 * t + 8) == m.triangles[t].0[2]);
        assert(ts[t].0 =~= m.triangles[t].0);
    }
    assert(ts =~= m.triangles);
}

/// A non-procedural surface is saved as its flag alone, and loads with no geometry.
pub proof fn lemma_non_procedural_saves_no_geometry(m: SurfaceModel)
    requires
        !m.is_procedural,
    ensures
        encode_spec(m) == seq![0u8],
        decode_spec(encode_spec(m)) == Ok::<SurfaceModel, LoadError>(unresolved_model()),
{
}

} // verus!

verus! {

fn usage_to_tag(u: VertexAttributeUsage) -> (r: u8)
    ensures
        r == usage_tag(u),
{
    match u {
        VertexAttributeUsage::Position => 0,
        VertexAttributeUsage::Normal => 1,
        VertexAttributeUsage::Tangent => 2,
        VertexAttributeUsage::TexCoord0 => 3,
        VertexAttributeUsage::TexCoord1 => 4,
        VertexAttributeUsage::Color => 5,
        VertexAttributeUsage::BoneWeight => 6,
        VertexAttributeUsage::BoneIndices => 7,
    }
}

fn usage_from_tag(t: u8) -> (r: Option<VertexAttributeUsage>)
    ensures
        r == usage_of_tag(t),
{
    if t == 0 {
        Some(VertexAttributeUsage::Position)
    } else if t == 1 {
        Some(VertexAttributeUsage::Normal)
    } else if t == 2 {
        Some(VertexAttributeUsage::Tangent)
    } else if t == 3 {
        Some(VertexAttributeUsage::TexCoord0)
    } else if t == 4 {
        Some(VertexAttributeUsage::TexCoord1)
    } else if t == 5 {
        Some(VertexAttributeUsage::Color)
    } else if t == 6 {
        Some(VertexAttributeUsage::BoneWeight)
    } else if t == 7 {
        Some(VertexAttributeUsage::BoneIndices)
    } else {
        None
    }
}

fn type_to_tag(d: VertexAttributeDataType) -> (r: u8)
    ensures
        r == type_tag(d),
{
    match d {
        VertexAttributeDataType::F32 => 0,
        VertexAttributeDataType::U32 => 1,
        VertexAttributeDataType::U16 => 2,
        VertexAttributeDataType::U8 => 3,
    }
}

fn type_from_tag(t: u8) -> (r: Option<VertexAttributeDataType>)
    ensures
        r == type_of_tag(t),
{
    if t == 0 {
        Some(VertexAttributeDataType::F32)
    } else if t == 1 {
        Some(VertexAttributeDataType::U32)
    } else if t == 2 {
        Some(VertexAttributeDataType::U16)
    } else if t == 3 {
        Some(VertexAttributeDataType::U8)
    } else {
        None
    }
}

/// Appends `bytes` to `out`.
fn push_bytes(out: &mut Vec<u8>, bytes: &[u8])
    ensures
        final(out)@ == old(out)@ + bytes@,
{
    let ghost start = out@;
    let mut i: usize = 0;
    while i < bytes.len()
        invariant
            0 <= i <= bytes@.len(),
            out@ == start + bytes@.subrange(0, i as int),
        decreases bytes@.len() - i,
    {
        out.push(bytes[i]);
        i = i + 1;
        assert(out@ =~= start + bytes@.subrange(0, i as int));
    }
    assert(bytes@.subrange(0, bytes@.len() as int) =~= bytes@);
}

/// The `len` bytes of `bytes` that begin at `start`.
fn copy_range(bytes: &[u8], start: usize, len: usize) -> (r: Vec<u8>)
    requires
        start + len <= bytes@.len(),
    ensures
        r@ == bytes@.subrange(start as int, start + len),
{
    let mut out: Vec<u8> = Vec::new();
    let blen = bytes.len();
    let mut i: usize = 0;
    while i < len
        invariant
            blen == bytes@.len(),
            start + len <= bytes@.len(),
            0 <= i <= len,
            out@ == bytes@.subrange(start as int, start + i),
        decreases len - i,
    {
        out.push(bytes[start + i]);
        i = i + 1;
        assert(out@ =~= bytes@.subrange(start as int, start + i));
    }
    out
}

proof fn lemma_parse_descs_none(b: Seq<u8>, k: nat, n: nat)
    requires
        k <= n,
        parse_descs(b, k) is None,
    ensures
        parse_descs(b, n) is None,
    decreases n - k,
{
    if k < n {
        lemma_parse_descs_none(b, k, (n - 1) as nat);
    }
}

impl SurfaceData {
    /// The persisted bytes: the procedural flag and, for procedural data only, the
    /// vertex buffer and the triangle buffer.
    pub fn save(&self) -> (r: Vec<u8>)
        requires
            self.wf(),
            self.geometry_buffer@.len() <= u32::MAX,
        ensures
            r@ == encode_spec(self.model()),
    {
        let mut out: Vec<u8> = Vec::new();
        if !self.is_procedural {
            out.push(0u8);
            assert(out@ =~= seq![0u8]);
            return out;
        }
        out.push(1u8);
        push_u32_le(&mut out, self.vertex_buffer.vertex_count());
        let layout = self.vertex_buffer.layout();
        proof {
            lemma_layout_len_bound(layout@);
        }
        push_u32_le(&mut out, layout.len() as u32);
        let ghost head = out@;
        let ghost ds = descs_of(layout@);
        let mut i: usize = 0;
        while i < layout.len()
            invariant
                0 <= i <= layout@.len(),
                ds == descs_of(layout@),
                out@ == head + descs_bytes(ds.subrange(0, i as int)),
            decreases layout@.len() - i,
        {
            let a = layout[i];
            out.push(usage_to_tag(a.usage));
            out.push(type_to_tag(a.data_type));
            out.push(a.size);
            out.push(a.divisor);
            out.push(a.shader_location);
            proof {
                assert(ds.subrange(0, i + 1).drop_last() =~= ds.subrange(0, i as int));
                assert(out@ =~= head + descs_bytes(ds.subrange(0, i + 1)));
            }
            i = i + 1;
        }
        assert(ds.subrange(0, ds.len() as int) =~= ds);
        push_bytes(&mut out, self.vertex_buffer.raw_data());
        push_u32_le(&mut out, self.geometry_buffer.len() as u32);
        let words = self.geometry_buffer.index_words();
        push_words_le(&mut out, words.as_slice());
        assert(out@ =~= encode_spec(self.model()));
        out
    }

    /// Loads surface data from its persisted bytes. A non-procedural record loads
    /// with empty buffers, which the source asset is to fill.
    pub fn load(bytes: &[u8]) -> (r: Result<SurfaceData, LoadError>)
        ensures
            match r {
                Ok(d) => d.wf() && decode_spec(bytes@) == Ok::<SurfaceModel, LoadError>(d.model()),
                Err(e) => decode_spec(bytes@) == Err::<SurfaceModel, LoadError>(e),
            },
    {
        let b = Ghost(bytes@);
        let n = bytes.len();
        if n == 0 {
            return Err(LoadError::Truncated);
        }
        if bytes[0] == 0 {
            if n != 1 {
                return Err(LoadError::TrailingBytes);
            }
            let empty: Vec<VertexAttributeDescriptor> = Vec::new();
            let vb = VertexBuffer::new(0, empty.as_slice(), Vec::new());
            proof {
                assert(!has_duplicate_usage(empty@));
                assert(layout_of(empty@) =~= Seq::empty());
            }
            let vb = vb.unwrap();
            let d = SurfaceData::new(vb, TriangleBuffer::new(Vec::new()), false);
            assert(d.model() == unresolved_model());
            return Ok(d);
        }
        if bytes[0] != 1 {
            return Err(LoadError::InvalidFlag);
        }
        if n < 9 {
            return Err(LoadError::Truncated);
        }
        let count = read_u32_le(bytes, 1);
        let na = read_u32_le(bytes, 5);
        let p64: u64 = 9 + 5 * (na as u64);
        if (n as u64) < p64 {
            return Err(LoadError::Truncated);
        }
        let mut ds: Vec<VertexAttributeDescriptor> = Vec::new();
        let mut i: u32 = 0;
        while i < na
            invariant
                n == bytes@.len(),
                bytes@[0] == 1,
                na == word_at(bytes@, 5),
                p64 == 9 + 5 * (na as u64),
                p64 <= n,
                0 <= i <= na,
                parse_descs(bytes@, i as nat) == Some(ds@),
            decreases na - i,
        {
            let at: usize = 9 + 5 * (i as usize);
            let u = usage_from_tag(bytes[at]);
            let t = type_from_tag(bytes[at + 1]);
            match (u, t) {
                (Some(u), Some(t)) => {
                    ds.push(VertexAttributeDescriptor { usage: u, data_type: t, size: bytes[at + 2], divisor: bytes[at + 3], shader_location: bytes[at + 4] });
                },
                _ => {
                    proof {
                        assert(desc_at(bytes@, attrs_start() + 5 * (i as int)) is None);
                        assert(parse_descs(bytes@, (i + 1) as nat) is None);
                        lemma_parse_descs_none(bytes@, (i + 1) as nat, na as nat);
                        assert(word_at(bytes@, 5) == na);
                        assert(bytes@[0] == 1);
                        assert(bytes@.len() >= attrs_start() + 5 * (na as int));
                        assert(decode_spec(bytes@) == Err::<SurfaceModel, LoadError>(LoadError::InvalidTag));
                    }
                    return Err(LoadError::InvalidTag);
                },
            }
            i = i + 1;
        }
        let check = VertexBuffer::new(0, ds.as_slice(), Vec::new());
        let vsize: u8 = match check {
            Err(e) => {
                return Err(LoadError::Layout(e));
            },
            Ok(vb0) => vb0.vertex_size(),
        };
        assert((count as u64) * (vsize as u64) <= 0xffff_ffff * 255) by (nonlinear_arith)
            requires count <= 0xffff_ffff, vsize <= 255;
        let dl64: u64 = (count as u64) * (vsize as u64);
        assert(dl64 == count * descs_size(ds@));
        if (n as u64) < p64 + dl64 + 4 {
            return Err(LoadError::Truncated);
        }
        let p = p64 as usize;
        let dl = dl64 as usize;
        let data = copy_range(bytes, p, dl);
        let tc = read_u32_le(bytes, p + dl);
        let q = p + dl + 4;
        let need: u64 = (q as u64) + 12 * (tc as u64);
        if (n as u64) < need {
            return Err(LoadError::Truncated);
        }
        if (n as u64) > need {
            return Err(LoadError::TrailingBytes);
        }
        let mut tris: Vec<TriangleDefinition> = Vec::new();
        let mut t: u32 = 0;
        while t < tc
            invariant
                n == bytes@.len(),
                need == q + 12 * tc,
                need == n,
                0 <= t <= tc,
                tris@ == triangles_at(bytes@, q as int, tc as nat).subrange(0, t as int),
            decreases tc - t,
        {
            let o: usize = q + 12 * (t as usize);
            let tri = TriangleDefinition([read_u32_le(bytes, o), read_u32_le(bytes, o + 4), read_u32_le(bytes, o + 8)]);
            tris.push(tri);
            t = t + 1;
            assert(tris@ =~= triangles_at(bytes@, q as int, tc as nat).subrange(0, t as int));
        }
        assert(tris@ =~= triangles_at(bytes@, q as int, tc as nat));
        let vb = VertexBuffer::new(count, ds.as_slice(), data).unwrap();
        let d = SurfaceData::new(vb, TriangleBuffer::new(tris), true);
        Ok(d)
    }
}


impl SurfaceData {
    /// Reads a persisted record into `self`. A procedural record replaces both
    /// buffers; a non-procedural one carries no geometry, so it only clears the
    /// procedural flag and leaves the buffers for the source asset to fill. On an
    /// error nothing changes. Blend shapes are not persisted and stay as they are.
    pub fn load_into(&mut self, bytes: &[u8]) -> (r: Result<(), LoadError>)
        ensures
            final(self).blend_shapes_container == old(self).blend_shapes_container,
            old(self).wf() ==> final(self).wf(),
            match r {
                Ok(_) => decode_spec(bytes@) matches Ok(m) && if m.is_procedural {
                    final(self).model() == m
                } else {
                    &&& !final(self).is_procedural
                    &&& final(self).vertex_buffer == old(self).vertex_buffer
                    &&& final(self).geometry_buffer == old(self).geometry_buffer
                },
                Err(e) => decode_spec(bytes@) == Err::<SurfaceModel, LoadError>(e)
                    && final(self).vertex_buffer == old(self).vertex_buffer
                    && final(self).geometry_buffer == old(self).geometry_buffer
                    && final(self).is_procedural == old(self).is_procedural,
            },
    {
        match SurfaceData::load(bytes) {
            Err(e) => Err(e),
            Ok(d) => {
                if d.is_procedural {
                    self.vertex_buffer = d.vertex_buffer;
                    self.geometry_buffer = d.geometry_buffer;
                    self.is_procedural = true;
                } else {
                    self.is_procedural = false;
                }
                Ok(())
            },
        }
    }
}

} // verus!
