//! Static vertices and a mesh builder that shares equal vertices.

use vstd::prelude::*;
use crate::buffer::{TriangleDefinition, VertexAttributeDataType, VertexAttributeDescriptor, VertexAttributeUsage, indices_below};

verus! {

/// A vertex of a static mesh. Each component is the bit pattern of an `f32`.
#[derive(Clone, Copy, Debug, PartialEq, Eq)]
pub struct StaticVertex {
    pub position: [u32; 3],
    pub tex_coord: [u32; 2],
    pub normal: [u32; 3],
    /// Direction and, in the last component, handedness.
    pub tangent: [u32; 4],
}

/// The components of `v` in layout order.
pub open spec fn vertex_words(v: StaticVertex) -> Seq<u32> {
    v.position@ + v.tex_coord@ + v.normal@ + v.tangent@
}

/// All components of all vertices of `vs`, one vertex after the other.
pub open spec fn vertices_words(vs: Seq<StaticVertex>) -> Seq<u32>
    decreases vs.len(),
{
    if vs.len() == 0 {
        Seq::empty()
    } else {
        vertices_words(vs.drop_last()) + vertex_words(vs.last())
    }
}

pub open spec fn static_layout() -> Seq<VertexAttributeDescriptor> {
    seq![
        VertexAttributeDescriptor { usage: VertexAttributeUsage::Position, data_type: VertexAttributeDataType::F32, size: 3, divisor: 0, shader_location: 0 },
        VertexAttributeDescriptor { usage: VertexAttributeUsage::TexCoord0, data_type: VertexAttributeDataType::F32, size: 2, divisor: 0, shader_location: 1 },
        VertexAttributeDescriptor { usage: VertexAttributeUsage::Normal, data_type: VertexAttributeDataType::F32, size: 3, divisor: 0, shader_location: 2 },
        VertexAttributeDescriptor { usage: VertexAttributeUsage::Tangent, data_type: VertexAttributeDataType::F32, size: 4, divisor: 0, shader_location: 3 },
    ]
}

impl StaticVertex {
    /// A vertex with the given position, texture coordinates and normal, and a zero tangent.
    pub fn from_pos_uv_normal(position: [u32; 3], tex_coord: [u32; 2], normal: [u32; 3]) -> (r: StaticVertex)
        ensures
            r == (StaticVertex { position, tex_coord, normal, tangent: [0u32, 0u32, 0u32, 0u32] }),
    {
        StaticVertex { position, tex_coord, normal, tangent: [0u32, 0u32, 0u32, 0u32] }
    }

    /// The attribute layout of a static vertex: position, texture coordinates, normal,
    /// tangent, all 32-bit floats.
    pub fn layout() -> (r: Vec<VertexAttributeDescriptor>)
        ensures
            r@ == static_layout(),
    {
        let r = vec![
            VertexAttributeDescriptor { usage: VertexAttributeUsage::Position, data_type: VertexAttributeDataType::F32, size: 3, divisor: 0, shader_location: 0 },
            VertexAttributeDescriptor { usage: VertexAttributeUsage::TexCoord0, data_type: VertexAttributeDataType::F32, size: 2, divisor: 0, shader_location: 1 },
            VertexAttributeDescriptor { usage: VertexAttributeUsage::Normal, data_type: VertexAttributeDataType::F32, size: 3, divisor: 0, shader_location: 2 },
            VertexAttributeDescriptor { usage: VertexAttributeUsage::Tangent, data_type: VertexAttributeDataType::F32, size: 4, divisor: 0, shader_location: 3 },
        ];
        assert(r@ =~= static_layout());
        r
    }

    /// The twelve components of the vertex in layout order.
    pub fn words(&self) -> (r: [u32; 12])
        ensures
            r@ == vertex_words(*self),
    {
        let r = [
            self.position[0], self.position[1], self.position[2],
            self.tex_coord[0], self.tex_coord[1],
            self.normal[0], self.normal[1], self.normal[2],
            self.tangent[0], self.tangent[1], self.tangent[2], self.tangent[3],
        ];
        assert(r@ =~= vertex_words(*self));
        r
    }
}

/// Two vertices have the same components.
pub fn same_vertex(a: &StaticVertex, b: &StaticVertex) -> (r: bool)
    ensures
        r == (vertex_words(*a) == vertex_words(*b)),
{
    let wa = a.words();
    let wb = b.words();
    let mut i: usize = 0;
    while i < 12
        invariant
            0 <= i <= 12,
            wa@ == vertex_words(*a),
            wb@ == vertex_words(*b),
            forall|k: int| 0 <= k < i ==> wa@[k] == wb@[k],
        decreases 12 - i,
    {
        if wa[i] != wb[i] {
            return false;
        }
        i = i + 1;
    }
    assert(wa@ =~= wb@);
    true
}

/// A mesh: vertices and triangles over them.
#[derive(Clone, Debug)]
pub struct RawMesh {
    pub vertices: Vec<StaticVertex>,
    pub triangles: Vec<TriangleDefinition>,
}

/// Collects vertices three per triangle, storing each distinct vertex once.
#[derive(Clone, Debug)]
pub struct RawMeshBuilder {
    vertices: Vec<StaticVertex>,
    indices: Vec<u32>,
}

/// No two vertices of `vs` have the same components.
pub open spec fn distinct_vertices(vs: Seq<StaticVertex>) -> bool {
    forall|i: int, j: int| 0 <= i < j < vs.len() ==> vertex_words(vs[i]) != vertex_words(vs[j])
}

/// The triangles made of each three consecutive indices of `ix`; a trailing
/// incomplete triple is left out.
pub open spec fn triangles_of(ix: Seq<u32>) -> Seq<TriangleDefinition> {
    Seq::new(ix.len() / 3, |t: int| TriangleDefinition([ix[3 * t], ix[3 * t + 1], ix[3 * t + 2]]))
}

impl RawMeshBuilder {
    /// The distinct vertices inserted so far, in order of first insertion.
    pub closed spec fn spec_vertices(&self) -> Seq<StaticVertex> {
        self.vertices@
    }

    /// For each insertion, the index of its vertex.
    pub closed spec fn spec_indices(&self) -> Seq<u32> {
        self.indices@
    }

    pub open spec fn wf(&self) -> bool {
        &&& distinct_vertices(self.spec_vertices())
        &&& self.spec_vertices().len() <= u32::MAX
        &&& forall|k: int| 0 <= k < self.spec_indices().len() ==> (#[trigger] self.spec_indices()[k]) < self.spec_vertices().len()
    }

    pub fn new() -> (r: RawMeshBuilder)
        ensures
            r.wf(),
            r.spec_vertices().len() == 0,
            r.spec_indices().len() == 0,
    {
        RawMeshBuilder { vertices: Vec::new(), indices: Vec::new() }
    }

    /// Number of distinct vertices so far.
    pub fn vertex_count(&self) -> (r: usize)
        ensures
            r == self.spec_vertices().len(),
    {
        self.vertices.len()
    }

    /// Adds `vertex` as the next corner. Returns `true` if it is new, `false` if an
    /// equal vertex was stored before, which is then reused.
    pub fn insert(&mut self, vertex: StaticVertex) -> (r: bool)
        requires
            old(self).wf(),
            old(self).spec_vertices().len() < u32::MAX,
        ensures
            final(self).wf(),
            final(self).spec_indices().len() == old(self).spec_indices().len() + 1,
            final(self).spec_indices().drop_last() == old(self).spec_indices(),
            vertex_words(final(self).spec_vertices()[final(self).spec_indices().last() as int]) == vertex_words(vertex),
            r == !(exists|j: int| 0 <= j < old(self).spec_vertices().len() && vertex_words(old(self).spec_vertices()[j]) == vertex_words(vertex)),
            r ==> final(self).spec_vertices() == old(self).spec_vertices().push(vertex),
            !r ==> final(self).spec_vertices() == old(self).spec_vertices(),
    {
        let mut j: usize = 0;
        while j < self.vertices.len()
            invariant
                self.vertices@ == old(self).vertices@,
                self.indices@ == old(self).indices@,
                old(self).wf(),
                old(self).spec_vertices().len() < u32::MAX,
                0 <= j <= self.vertices@.len(),
                forall|k: int| 0 <= k < j ==> vertex_words(self.vertices@[k]) != vertex_words(vertex),
            decreases self.vertices@.len() - j,
        {
            if same_vertex(&self.vertices[j], &vertex) {
                self.indices.push(j as u32);
                proof {
                    assert(self.indices@.drop_last() =~= old(self).indices@);
                    assert forall|k: int| 0 <= k < self.spec_indices().len() implies (#[trigger] self.spec_indices()[k]) < self.spec_vertices().len() by {
                        if k < old(self).indices@.len() {
                            assert(self.indices@[k] == old(self).spec_indices()[k]);
                        }
                    }
                }
                return false;
            }
            j = j + 1;
        }
        let index = self.vertices.len() as u32;
        self.vertices.push(vertex);
        self.indices.push(index);
        proof {
            assert(self.indices@.drop_last() =~= old(self).indices@);
            assert forall|k: int| 0 <= k < self.spec_indices().len() implies (#[trigger] self.spec_indices()[k]) < self.spec_vertices().len() by {
                if k < old(self).indices@.len() {
                    assert(self.indices@[k] == old(self).spec_indices()[k]);
                }
            }
            assert forall|a: int, b: int| 0 <= a < b < self.vertices@.len() implies vertex_words(self.vertices@[a]) != vertex_words(self.vertices@[b]) by {
                if b < old(self).vertices@.len() {
                    assert(old(self).spec_vertices()[a] == self.vertices@[a]);
                    assert(old(self).spec_vertices()[b] == self.vertices@[b]);
                }
            }
        }
        true
    }

    /// The mesh: the distinct vertices, and one triangle per three insertions.
    pub fn build(self) -> (r: RawMesh)
        requires
            self.wf(),
        ensures
            r.vertices@ == self.spec_vertices(),
            r.triangles@ == triangles_of(self.spec_indices()),
            indices_below(r.triangles@, r.vertices@.len()),
    {
        let mut triangles: Vec<TriangleDefinition> = Vec::new();
        let ilen = self.indices.len();
        let n = ilen / 3;
        let mut t: usize = 0;
        while t < n
            invariant
                self.wf(),
                ilen == self.indices@.len(),
                n == self.indices@.len() / 3,
                3 * n <= self.indices@.len(),
                0 <= t <= n,
                triangles@ == triangles_of(self.indices@).subrange(0, t as int),
            decreases n - t,
        {
            let tri = TriangleDefinition([self.indices[3 * t], self.indices[3 * t + 1], self.indices[3 * t + 2]]);
            triangles.push(tri);
            t = t + 1;
            assert(triangles@ =~= triangles_of(self.indices@).subrange(0, t as int));
        }
        let r = RawMesh { vertices: self.vertices, triangles };
        proof {
            let ts = triangles_of(self.indices@);
            assert(r.triangles@ =~= ts);
            assert forall|i: int, k: int| 0 <= i < ts.len() && 0 <= k < 3 implies (#[trigger] ts[i].0[k]) < r.vertices@.len() by {
                assert(self.spec_indices()[3 * i + k] < self.spec_vertices().len());
                assert(ts[i].0@ == seq![self.indices@[3 * i], self.indices@[3 * i + 1], self.indices@[3 * i + 2]]);
            }
        }
        r
    }
}

} // verus!
