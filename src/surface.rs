//! Surface data: a vertex buffer and a triangle buffer, with the operations that
//! work on them as a whole.

use vstd::prelude::*;
use crate::blend::BlendShapesContainer;
use crate::buffer::{desc_len, find_attribute, write_f32_spec, write_spec, VertexAttributeDataType, TriangleBuffer, TriangleDefinition, VertexAttributeUsage, VertexBuffer, VertexBufferModel, VertexFetchError, descs_size, has_duplicate_usage, indices_below, layout_of, triangle_words};
use crate::bytes::{words_le, push_words_le, lemma_words_le_len, lemma_words_le_append};
use crate::hash::{combine_spec, fx_hash_bytes, fx_hash_of, hash_combine};
use crate::raw_mesh::{RawMesh, StaticVertex, static_layout, vertex_words, vertices_words};

verus! {

/// Bytes of one static vertex.
pub const STATIC_VERTEX_SIZE: u32 = 48;

/// The vertex buffer that holds `vs` as static vertices.
pub open spec fn static_model(vs: Seq<StaticVertex>) -> VertexBufferModel {
    VertexBufferModel {
        layout: layout_of(static_layout()),
        vertex_size: STATIC_VERTEX_SIZE as nat,
        vertex_count: vs.len(),
        data: words_le(vertices_words(vs)),
    }
}

/// The hash of the contents of a surface with vertex bytes `vertex_bytes` and
/// triangles `ts`.
pub open spec fn content_hash_spec(vertex_bytes: Seq<u8>, ts: Seq<TriangleDefinition>) -> u64 {
    combine_spec(fx_hash_of(words_le(triangle_words(ts))), fx_hash_of(vertex_bytes))
}

proof fn lemma_static_layout()
    ensures
        !has_duplicate_usage(static_layout()),
        descs_size(static_layout()) == STATIC_VERTEX_SIZE,
{
    let l4 = static_layout();
    let l3 = l4.drop_last();
    let l2 = l3.drop_last();
    let l1 = l2.drop_last();
    let l0 = l1.drop_last();
    assert(l0 =~= Seq::<crate::buffer::VertexAttributeDescriptor>::empty());
    assert(descs_size(l0) == 0);
    assert(l1.len() == 1 && l1.last() == l4[0] && l1.drop_last() == l0);
    assert(l2.len() == 2 && l2.last() == l4[1] && l2.drop_last() == l1);
    assert(l3.len() == 3 && l3.last() == l4[2]);
    assert(l4[0].size == 3 && l4[1].size == 2 && l4[2].size == 3 && l4[3].size == 4);
    assert(l4[0].data_type.spec_size() == 4 && l4[1].data_type.spec_size() == 4);
    assert(l4[2].data_type.spec_size() == 4 && l4[3].data_type.spec_size() == 4);
    assert(desc_len(l4[0]) == 12 && desc_len(l4[1]) == 8 && desc_len(l4[2]) == 12 && desc_len(l4[3]) == 16) by (nonlinear_arith)
        requires
            l4[0].size == 3 && l4[1].size == 2 && l4[2].size == 3 && l4[3].size == 4,
            l4[0].data_type.spec_size() == 4 && l4[1].data_type.spec_size() == 4,
            l4[2].data_type.spec_size() == 4 && l4[3].data_type.spec_size() == 4;
    assert(descs_size(l1) == 12);
    assert(descs_size(l2) == 20);
    assert(descs_size(l3) == 32);
    assert(descs_size(l4) == 48);
}

proof fn lemma_vertices_words_len(vs: Seq<StaticVertex>)
    ensures
        vertices_words(vs).len() == 12 * vs.len(),
    decreases vs.len(),
{
    if vs.len() > 0 {
        lemma_vertices_words_len(vs.drop_last());
    }
}

/// Data source of a surface. Many surfaces can share one data source, to draw the
/// same mesh in many places.
#[derive(Clone, Debug)]
pub struct SurfaceData {
    pub vertex_buffer: VertexBuffer,
    pub geometry_buffer: TriangleBuffer,
    pub blend_shapes_container: Option<BlendShapesContainer>,
    /// Procedural data was made by code, has no source asset, and is persisted.
    pub is_procedural: bool,
}

impl SurfaceData {
    pub open spec fn wf(&self) -> bool {
        self.vertex_buffer.wf()
    }

    /// Every triangle index names a vertex of the buffer.
    pub open spec fn indices_valid(&self) -> bool {
        indices_below(self.geometry_buffer@, self.vertex_buffer@.vertex_count)
    }

    /// Creates a data source from the given vertices and triangles.
    pub fn new(vertex_buffer: VertexBuffer, triangles: TriangleBuffer, is_procedural: bool) -> (r: SurfaceData)
        ensures
            r.vertex_buffer@ == vertex_buffer@,
            r.geometry_buffer@ == triangles@,
            r.blend_shapes_container is None,
            r.is_procedural == is_procedural,
    {
        SurfaceData { vertex_buffer, geometry_buffer: triangles, blend_shapes_container: None, is_procedural }
    }

    /// Turns a raw mesh of static vertices into a data source.
    pub fn from_raw_mesh(raw: RawMesh, is_procedural: bool) -> (r: SurfaceData)
        requires
            raw.vertices@.len() <= u32::MAX,
        ensures
            r.wf(),
            r.vertex_buffer@ == static_model(raw.vertices@),
            r.geometry_buffer@ == raw.triangles@,
            r.blend_shapes_container is None,
            r.is_procedural == is_procedural,
    {
        let mut bytes: Vec<u8> = Vec::new();
        let mut i: usize = 0;
        while i < raw.vertices.len()
            invariant
                0 <= i <= raw.vertices@.len(),
                bytes@ == words_le(vertices_words(raw.vertices@.subrange(0, i as int))),
            decreases raw.vertices@.len() - i,
        {
            let w = raw.vertices[i].words();
            push_words_le(&mut bytes, w.as_slice());
            proof {
                let pre = raw.vertices@.subrange(0, i as int);
                assert(raw.vertices@.subrange(0, i + 1).drop_last() =~= pre);
                lemma_words_le_append(vertices_words(pre), vertex_words(raw.vertices@[i as int]));
            }
            i = i + 1;
        }
        assert(raw.vertices@.subrange(0, raw.vertices@.len() as int) =~= raw.vertices@);
        let layout = StaticVertex::layout();
        proof {
            lemma_static_layout();
            lemma_vertices_words_len(raw.vertices@);
            lemma_words_le_len(vertices_words(raw.vertices@));
        }
        let vertex_buffer = VertexBuffer::new(raw.vertices.len() as u32, layout.as_slice(), bytes).unwrap();
        SurfaceData {
            vertex_buffer,
            geometry_buffer: TriangleBuffer::new(raw.triangles),
            blend_shapes_container: None,
            is_procedural,
        }
    }

    /// Hash of the contents: the triangle bytes' hash combined with the vertex bytes' hash.
    pub fn content_hash(&self) -> (r: u64)
        ensures
            r == content_hash_spec(self.vertex_buffer@.data, self.geometry_buffer@),
    {
        let tri = self.geometry_buffer.raw_data();
        let th = fx_hash_bytes(tri.as_slice());
        let vh = fx_hash_bytes(self.vertex_buffer.raw_data());
        hash_combine(th, vh)
    }

    /// Empties both buffers, keeping the vertex layout.
    pub fn clear(&mut self)
        requires
            old(self).wf(),
        ensures
            final(self).wf(),
            final(self).vertex_buffer@ == (VertexBufferModel { vertex_count: 0, data: Seq::empty(), ..old(self).vertex_buffer@ }),
            final(self).geometry_buffer@.len() == 0,
            final(self).is_procedural == old(self).is_procedural,
            final(self).blend_shapes_container == old(self).blend_shapes_container,
    {
        self.geometry_buffer.clear();
        self.vertex_buffer.clear();
    }

    /// Marks the contents as made by code (persisted with the surface) or not.
    pub fn set_procedural(&mut self, procedural: bool)
        ensures
            final(self).is_procedural == procedural,
            final(self).vertex_buffer == old(self).vertex_buffer,
            final(self).geometry_buffer == old(self).geometry_buffer,
    {
        self.is_procedural = procedural;
    }

    /// Whether the contents were made by code.
    pub fn is_procedural(&self) -> (r: bool)
        ensures
            r == self.is_procedural,
    {
        self.is_procedural
    }
}

} // verus!

verus! {

/// Content hashing is deterministic: two surfaces whose triangle bytes and vertex
/// bytes are equal have equal content hashes, whichever instances they are.
pub proof fn lemma_content_hash_deterministic(a: SurfaceData, b: SurfaceData)
    requires
        words_le(triangle_words(a.geometry_buffer@)) == words_le(triangle_words(b.geometry_buffer@)),
        a.vertex_buffer@.data == b.vertex_buffer@.data,
    ensures
        content_hash_spec(a.vertex_buffer@.data, a.geometry_buffer@) == content_hash_spec(b.vertex_buffer@.data, b.geometry_buffer@),
{
}

} // verus!

verus! {

/// Triangle `t` uses vertex `v` as one of its corners.
pub open spec fn uses_vertex(t: TriangleDefinition, v: int) -> bool {
    t.0[0] == v || t.0[1] == v || t.0[2] == v
}

/// The last triangle of `ts` that uses vertex `v`, if any.
pub open spec fn last_triangle_of(ts: Seq<TriangleDefinition>, v: int) -> Option<int>
    decreases ts.len(),
{
    if ts.len() == 0 {
        None
    } else if uses_vertex(ts.last(), v) {
        Some(ts.len() - 1)
    } else {
        last_triangle_of(ts.drop_last(), v)
    }
}

impl SurfaceData {
    /// For each vertex, the triangle whose face normal it takes when normals are
    /// computed per face: triangles are visited in order and each writes all three
    /// of its corners, so the last triangle that uses a vertex wins. Vertices that
    /// no triangle uses keep their normal (`None`).
    pub fn face_normal_sources(&self) -> (r: Vec<Option<usize>>)
        requires
            self.indices_valid(),
        ensures
            r@.len() == self.vertex_buffer@.vertex_count,
            forall|v: int| 0 <= v < r@.len() ==> (match #[trigger] r@[v] {
                Some(t) => last_triangle_of(self.geometry_buffer@, v) == Some(t as int),
                None => last_triangle_of(self.geometry_buffer@, v) is None,
            }),
    {
        let n = self.vertex_buffer.vertex_count() as usize;
        let mut r: Vec<Option<usize>> = Vec::new();
        let mut v: usize = 0;
        while v < n
            invariant
                0 <= v <= n,
                r@.len() == v,
                forall|k: int| 0 <= k < v ==> r@[k] is None,
            decreases n - v,
        {
            r.push(None);
            v = v + 1;
        }
        let ts = self.geometry_buffer.triangles();
        let mut t: usize = 0;
        while t < ts.len()
            invariant
                ts@ == self.geometry_buffer@,
                indices_below(ts@, n as nat),
                n == self.vertex_buffer@.vertex_count,
                r@.len() == n,
                0 <= t <= ts@.len(),
                forall|k: int| 0 <= k < n ==> (match #[trigger] r@[k] {
                    Some(i) => last_triangle_of(ts@.subrange(0, t as int), k) == Some(i as int),
                    None => last_triangle_of(ts@.subrange(0, t as int), k) is None,
                }),
            decreases ts@.len() - t,
        {
            let tr = ts[t];
            assert(tr.0[0] < n && tr.0[1] < n && tr.0[2] < n);
            r.set(tr.0[0] as usize, Some(t));
            r.set(tr.0[1] as usize, Some(t));
            r.set(tr.0[2] as usize, Some(t));
            proof {
                let pre = ts@.subrange(0, t as int);
                let next = ts@.subrange(0, t + 1);
                assert(next.drop_last() =~= pre);
                assert(next.last() == tr);
            }
            t = t + 1;
        }
        assert(ts@.subrange(0, ts@.len() as int) =~= ts@);
        r
    }
}

} // verus!

verus! {

/// The vertex buffer after vertices `0..k` have taken, in order, the face normal
/// of the last triangle that uses them; the first failed write ends it.
pub open spec fn face_normals_spec(m: VertexBufferModel, ts: Seq<TriangleDefinition>, normals: Seq<[u32; 3]>, k: nat) -> Result<VertexBufferModel, VertexFetchError>
    decreases k,
{
    if k == 0 {
        Ok(m)
    } else {
        match face_normals_spec(m, ts, normals, (k - 1) as nat) {
            Err(e) => Err(e),
            Ok(m1) => match last_triangle_of(ts, k - 1) {
                None => Ok(m1),
                Some(t) => write_f32_spec(m1, k - 1, VertexAttributeUsage::Normal, normals[t]@),
            },
        }
    }
}

proof fn lemma_face_normals_err(m: VertexBufferModel, ts: Seq<TriangleDefinition>, normals: Seq<[u32; 3]>, k: nat, n: nat, e: VertexFetchError)
    requires
        k <= n,
        face_normals_spec(m, ts, normals, k) == Err::<VertexBufferModel, VertexFetchError>(e),
    ensures
        face_normals_spec(m, ts, normals, n) == Err::<VertexBufferModel, VertexFetchError>(e),
    decreases n - k,
{
    if k < n {
        lemma_face_normals_err(m, ts, normals, k, (n - 1) as nat, e);
    }
}

impl SurfaceData {
    /// Gives each vertex the face normal (one bit pattern per component) of the last
    /// triangle that uses it; `normals[t]` is the face normal of triangle `t`.
    /// Vertices that no triangle uses keep their normal. A failed write ends the
    /// operation, keeping the writes made before it.
    pub fn set_face_normals(&mut self, normals: &[[u32; 3]]) -> (r: Result<(), VertexFetchError>)
        requires
            old(self).wf(),
            old(self).indices_valid(),
            normals@.len() == old(self).geometry_buffer@.len(),
        ensures
            final(self).wf(),
            final(self).geometry_buffer@ == old(self).geometry_buffer@,
            final(self).is_procedural == old(self).is_procedural,
            final(self).blend_shapes_container == old(self).blend_shapes_container,
            match r {
                Ok(_) => face_normals_spec(old(self).vertex_buffer@, old(self).geometry_buffer@, normals@, old(self).vertex_buffer@.vertex_count)
                    == Ok::<VertexBufferModel, VertexFetchError>(final(self).vertex_buffer@),
                Err(e) => face_normals_spec(old(self).vertex_buffer@, old(self).geometry_buffer@, normals@, old(self).vertex_buffer@.vertex_count)
                    == Err::<VertexBufferModel, VertexFetchError>(e)
                    && final(self).vertex_buffer@ == old(self).vertex_buffer@,
            },
    {
        let sources = self.face_normal_sources();
        let n = self.vertex_buffer.vertex_count() as usize;
        let ghost m0 = self.vertex_buffer@;
        let ghost ts = self.geometry_buffer@;
        let ghost written = false;
        let mut v: usize = 0;
        while v < n
            invariant
                self.wf(),
                !written ==> self.vertex_buffer@ == m0,
                written ==> (find_attribute(m0.layout, VertexAttributeUsage::Normal) matches Some(a)
                    && a.data_type == VertexAttributeDataType::F32 && a.size == 3),
                self.vertex_buffer@.layout == m0.layout,
                self.vertex_buffer@.vertex_count == m0.vertex_count,
                self.blend_shapes_container == old(self).blend_shapes_container,
                self.geometry_buffer@ == ts,
                self.is_procedural == old(self).is_procedural,
                ts == old(self).geometry_buffer@,
                m0 == old(self).vertex_buffer@,
                n == m0.vertex_count,
                sources@.len() == n,
                normals@.len() == ts.len(),
                forall|k: int| 0 <= k < sources@.len() ==> (match #[trigger] sources@[k] {
                    Some(t) => last_triangle_of(ts, k) == Some(t as int),
                    None => last_triangle_of(ts, k) is None,
                }),
                0 <= v <= n,
                face_normals_spec(m0, ts, normals@, v as nat) == Ok::<VertexBufferModel, VertexFetchError>(self.vertex_buffer@),
            decreases n - v,
        {
            match sources[v] {
                None => {},
                Some(t) => {
                    proof {
                        lemma_last_triangle_in_range(ts, v as int);
                    }
                    let ghost pre = self.vertex_buffer@;
                    let res = self.vertex_buffer.write_f32_bits(v, VertexAttributeUsage::Normal, normals[t].as_slice());
                    match res {
                        Ok(_) => {
                            proof {
                                written = true;
                            }
                        },
                        Err(e) => {
                            proof {
                                if written {
                                    assert(normals@[t as int]@.len() == 3);
                                    assert(pre.layout == m0.layout);
                                    lemma_words_le_len(normals@[t as int]@);
                                    let a = find_attribute(m0.layout, VertexAttributeUsage::Normal).unwrap();
                                    assert(crate::buffer::attr_len(a) == 12);
                                    assert(write_spec(pre, v as int, VertexAttributeUsage::Normal, words_le(normals@[t as int]@)) is Ok);
                                    assert(write_f32_spec(pre, v as int, VertexAttributeUsage::Normal, normals@[t as int]@) is Ok);
                                }
                                lemma_face_normals_err(m0, ts, normals@, (v + 1) as nat, n as nat, e);
                            }
                            return Err(e);
                        },
                    }
                },
            }
            v = v + 1;
        }
        Ok(())
    }
}

proof fn lemma_last_triangle_in_range(ts: Seq<TriangleDefinition>, v: int)
    ensures
        last_triangle_of(ts, v) matches Some(t) ==> 0 <= t < ts.len(),
    decreases ts.len(),
{
    if ts.len() > 0 {
        lemma_last_triangle_in_range(ts.drop_last(), v);
    }
}

} // verus!
