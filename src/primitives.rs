//! Procedural shapes whose vertices are fixed, and the topology of the torus.

use vstd::prelude::*;
use crate::buffer::{TriangleDefinition, indices_below};
use crate::raw_mesh::{RawMesh, StaticVertex};
use crate::surface::{SurfaceData, static_model};

verus! {

/// Bit patterns of the `f32` values used below.
pub const ZERO: u32 = 0x0000_0000;
pub const NEG_ZERO: u32 = 0x8000_0000;
pub const ONE: u32 = 0x3f80_0000;
pub const NEG_ONE: u32 = 0xbf80_0000;
pub const HALF: u32 = 0x3f00_0000;
pub const NEG_HALF: u32 = 0xbf00_0000;

pub open spec fn sv(p: [u32; 3], uv: [u32; 2], n: [u32; 3]) -> StaticVertex {
    StaticVertex { position: p, tex_coord: uv, normal: n, tangent: [0u32, 0u32, 0u32, 0u32] }
}

pub open spec fn tri(a: u32, b: u32, c: u32) -> TriangleDefinition {
    TriangleDefinition([a, b, c])
}

/// The two triangles of a quad made of four corners in order.
pub open spec fn quad_triangles() -> Seq<TriangleDefinition> {
    seq![tri(0, 1, 2), tri(0, 2, 3)]
}

pub open spec fn unit_xy_quad_vertices() -> Seq<StaticVertex> {
    seq![
        sv([ZERO, ZERO, ZERO], [ZERO, ONE], [ZERO, ZERO, ONE]),
        sv([ONE, ZERO, ZERO], [ONE, ONE], [ZERO, ZERO, ONE]),
        sv([ONE, ONE, ZERO], [ONE, ZERO], [ZERO, ZERO, ONE]),
        sv([ZERO, ONE, ZERO], [ZERO, ZERO], [ZERO, ZERO, ONE]),
    ]
}

pub open spec fn collapsed_xy_quad_vertices() -> Seq<StaticVertex> {
    seq![
        sv([ZERO, ZERO, ZERO], [ZERO, ZERO], [ZERO, ZERO, ONE]),
        sv([ZERO, ZERO, ZERO], [ONE, ZERO], [ZERO, ZERO, ONE]),
        sv([ZERO, ZERO, ZERO], [ONE, ONE], [ZERO, ZERO, ONE]),
        sv([ZERO, ZERO, ZERO], [ZERO, ONE], [ZERO, ZERO, ONE]),
    ]
}

pub open spec fn centered_quad_vertices() -> Seq<StaticVertex> {
    seq![
        sv([NEG_HALF, HALF, ZERO], [ONE, ONE], [NEG_ZERO, NEG_ZERO, NEG_ONE]),
        sv([HALF, HALF, ZERO], [ZERO, ONE], [NEG_ZERO, NEG_ZERO, NEG_ONE]),
        sv([HALF, NEG_HALF, ZERO], [ZERO, ZERO], [NEG_ZERO, NEG_ZERO, NEG_ONE]),
        sv([NEG_HALF, NEG_HALF, ZERO], [ONE, ZERO], [NEG_ZERO, NEG_ZERO, NEG_ONE]),
    ]
}

/// The four corners of a cube face: positions `c0` to `c3`, texture coordinates
/// (0,0), (0,1), (1,1), (1,0), and normal `n`.
pub open spec fn face(c0: [u32; 3], c1: [u32; 3], c2: [u32; 3], c3: [u32; 3], n: [u32; 3]) -> Seq<StaticVertex> {
    seq![sv(c0, [ZERO, ZERO], n), sv(c1, [ZERO, ONE], n), sv(c2, [ONE, ONE], n), sv(c3, [ONE, ZERO], n)]
}

pub open spec fn cube_vertices() -> Seq<StaticVertex> {
    face([NEG_HALF, NEG_HALF, HALF], [NEG_HALF, HALF, HALF], [HALF, HALF, HALF], [HALF, NEG_HALF, HALF], [ZERO, ZERO, ONE])
    + face([NEG_HALF, NEG_HALF, NEG_HALF], [NEG_HALF, HALF, NEG_HALF], [HALF, HALF, NEG_HALF], [HALF, NEG_HALF, NEG_HALF], [NEG_ZERO, NEG_ZERO, NEG_ONE])
    + face([NEG_HALF, NEG_HALF, NEG_HALF], [NEG_HALF, HALF, NEG_HALF], [NEG_HALF, HALF, HALF], [NEG_HALF, NEG_HALF, HALF], [NEG_ONE, NEG_ZERO, NEG_ZERO])
    + face([HALF, NEG_HALF, NEG_HALF], [HALF, HALF, NEG_HALF], [HALF, HALF, HALF], [HALF, NEG_HALF, HALF], [ONE, ZERO, ZERO])
    + face([NEG_HALF, HALF, HALF], [NEG_HALF, HALF, NEG_HALF], [HALF, HALF, NEG_HALF], [HALF, HALF, HALF], [ZERO, ONE, ZERO])
    + face([NEG_HALF, NEG_HALF, HALF], [NEG_HALF, NEG_HALF, NEG_HALF], [HALF, NEG_HALF, NEG_HALF], [HALF, NEG_HALF, HALF], [NEG_ZERO, NEG_ONE, NEG_ZERO])
}

/// Two triangles per face, wound so that each face is seen counter-clockwise from outside.
pub open spec fn cube_triangles() -> Seq<TriangleDefinition> {
    seq![
        tri(2, 1, 0), tri(3, 2, 0),
        tri(4, 5, 6), tri(4, 6, 7),
        tri(10, 9, 8), tri(11, 10, 8),
        tri(12, 13, 14), tri(12, 14, 15),
        tri(18, 17, 16), tri(19, 18, 16),
        tri(20, 21, 22), tri(20, 22, 23),
    ]
}

fn vtx(p: [u32; 3], uv: [u32; 2], n: [u32; 3]) -> (r: StaticVertex)
    ensures
        r == sv(p, uv, n),
{
    StaticVertex::from_pos_uv_normal(p, uv, n)
}

fn push_face(out: &mut Vec<StaticVertex>, c0: [u32; 3], c1: [u32; 3], c2: [u32; 3], c3: [u32; 3], n: [u32; 3])
    ensures
        final(out)@ == old(out)@ + face(c0, c1, c2, c3, n),
{
    out.push(vtx(c0, [ZERO, ZERO], n));
    out.push(vtx(c1, [ZERO, ONE], n));
    out.push(vtx(c2, [ONE, ONE], n));
    out.push(vtx(c3, [ONE, ZERO], n));
    assert(final(out)@ =~= old(out)@ + face(c0, c1, c2, c3, n));
}

fn quad_triangle_list() -> (r: Vec<TriangleDefinition>)
    ensures
        r@ == quad_triangles(),
{
    let r = vec![TriangleDefinition([0, 1, 2]), TriangleDefinition([0, 2, 3])];
    assert(r@ =~= quad_triangles());
    r
}

/// Cell `q` of the torus grid is the quad between rows `q / num_segments` and the
/// next, and between columns `q % num_segments` and the next; rows are
/// `num_segments + 1` vertices long. Its two triangles come in this order, wound
/// counter-clockwise seen from outside when row `j` lies at tube angle `j / num_rings`
/// of a turn and column `i` at ring angle `i / num_segments` of a turn.
pub open spec fn torus_cell_triangles(num_segments: nat, q: int) -> Seq<TriangleDefinition> {
    let j = q / num_segments as int + 1;
    let i = q % num_segments as int + 1;
    let w = num_segments + 1;
    let a = (w * j + i - 1) as u32;
    let b = (w * (j - 1) + i - 1) as u32;
    let c = (w * (j - 1) + i) as u32;
    let d = (w * j + i) as u32;
    seq![tri(a, d, b), tri(b, d, c)]
}

/// The triangles of the cells `0..cells` of a torus grid, cell after cell.
pub open spec fn torus_triangles_spec(num_segments: nat, cells: nat) -> Seq<TriangleDefinition>
    decreases cells,
{
    if cells == 0 {
        Seq::empty()
    } else {
        torus_triangles_spec(num_segments, (cells - 1) as nat) + torus_cell_triangles(num_segments, cells - 1)
    }
}

/// The triangles of a torus of `num_rings` rings of `num_segments` segments, over a
/// grid of `(num_rings + 1) * (num_segments + 1)` vertices, ring after ring.
pub fn torus_triangles(num_rings: u32, num_segments: u32) -> (r: Vec<TriangleDefinition>)
    requires
        (num_rings as int + 1) * (num_segments as int + 1) <= u32::MAX,
    ensures
        r@ == torus_triangles_spec(num_segments as nat, num_rings as nat * num_segments as nat),
        r@.len() == 2 * num_rings * num_segments,
        indices_below(r@, (num_rings as nat + 1) * (num_segments as nat + 1)),
{
    let mut out: Vec<TriangleDefinition> = Vec::new();
    if num_segments == 0 {
        assert(num_rings as nat * num_segments as nat == 0);
        return out;
    }
    proof {
        assert((num_segments as int + 1) <= (num_rings as int + 1) * (num_segments as int + 1)) by (nonlinear_arith);
        assert((num_rings as int) * (num_segments as int) <= (num_rings as int + 1) * (num_segments as int + 1)) by (nonlinear_arith)
            requires num_rings >= 0, num_segments >= 0;
    }
    let w: u32 = num_segments + 1;
    let cells: u32 = num_rings * num_segments;
    let ghost n = (num_rings as nat + 1) * (num_segments as nat + 1);
    let mut q: u32 = 0;
    while q < cells
        invariant
            num_segments > 0,
            w == num_segments + 1,
            cells == num_rings * num_segments,
            (num_rings as int + 1) * (num_segments as int + 1) <= u32::MAX,
            n == (num_rings as nat + 1) * (num_segments as nat + 1),
            0 <= q <= cells,
            out@ == torus_triangles_spec(num_segments as nat, q as nat),
            out@.len() == 2 * q,
            indices_below(out@, n),
        decreases cells - q,
    {
        let j: u32 = q / num_segments + 1;
        let i: u32 = q % num_segments + 1;
        proof {
            assert(q / num_segments < num_rings) by (nonlinear_arith)
                requires q < num_rings * num_segments, num_segments > 0;
            assert((w as int) * (j as int) + (i as int) <= (w as int) * (num_rings as int) + (num_segments as int)) by (nonlinear_arith)
                requires j <= num_rings, i <= num_segments, w > 0;
            assert((w as int) * (num_rings as int) + (num_segments as int) < n) by (nonlinear_arith)
                requires w == num_segments + 1, n == (num_rings as nat + 1) * (num_segments as nat + 1);
            assert((w as int) * (j as int - 1) + (i as int) <= (w as int) * (j as int)) by (nonlinear_arith)
                requires i <= num_segments, w == num_segments + 1, j >= 1;
            assert((w as int) * (j as int - 1) >= 0) by (nonlinear_arith)
                requires j >= 1, w > 0;
        }
        let a = w * j + i - 1;
        let b = w * (j - 1) + i - 1;
        let c = w * (j - 1) + i;
        let d = w * j + i;
        let ghost pre = out@;
        out.push(TriangleDefinition([a, d, b]));
        out.push(TriangleDefinition([b, d, c]));
        proof {
            assert(out@ =~= pre + torus_cell_triangles(num_segments as nat, q as int));
            assert forall|t: int, k: int| 0 <= t < out@.len() && 0 <= k < 3 implies (#[trigger] out@[t].0[k]) < n by {
                if t < pre.len() {
                    assert(out@[t] == pre[t]);
                }
            }
        }
        q = q + 1;
    }
    assert(2 * (num_rings as int) * (num_segments as int) == 2 * ((num_rings as int) * (num_segments as int))) by (nonlinear_arith);
    out
}

impl SurfaceData {
    /// A unit quad on the XY plane, facing +Z.
    pub fn make_unit_xy_quad() -> (r: SurfaceData)
        ensures
            r.wf(),
            r.indices_valid(),
            r.vertex_buffer@ == static_model(unit_xy_quad_vertices()),
            r.geometry_buffer@ == quad_triangles(),
            r.is_procedural,
            r.blend_shapes_container is None,
    {
        let vertices = vec![
            vtx([ZERO, ZERO, ZERO], [ZERO, ONE], [ZERO, ZERO, ONE]),
            vtx([ONE, ZERO, ZERO], [ONE, ONE], [ZERO, ZERO, ONE]),
            vtx([ONE, ONE, ZERO], [ONE, ZERO], [ZERO, ZERO, ONE]),
            vtx([ZERO, ONE, ZERO], [ZERO, ZERO], [ZERO, ZERO, ONE]),
        ];
        assert(vertices@ =~= unit_xy_quad_vertices());
        SurfaceData::from_raw_mesh(RawMesh { vertices, triangles: quad_triangle_list() }, true)
    }

    /// A quad collapsed into one point; a sprite shader moves its corners so that it
    /// always faces the camera.
    pub fn make_collapsed_xy_quad() -> (r: SurfaceData)
        ensures
            r.wf(),
            r.indices_valid(),
            r.vertex_buffer@ == static_model(collapsed_xy_quad_vertices()),
            r.geometry_buffer@ == quad_triangles(),
            r.is_procedural,
            r.blend_shapes_container is None,
    {
        let vertices = vec![
            vtx([ZERO, ZERO, ZERO], [ZERO, ZERO], [ZERO, ZERO, ONE]),
            vtx([ZERO, ZERO, ZERO], [ONE, ZERO], [ZERO, ZERO, ONE]),
            vtx([ZERO, ZERO, ZERO], [ONE, ONE], [ZERO, ZERO, ONE]),
            vtx([ZERO, ZERO, ZERO], [ZERO, ONE], [ZERO, ZERO, ONE]),
        ];
        assert(vertices@ =~= collapsed_xy_quad_vertices());
        SurfaceData::from_raw_mesh(RawMesh { vertices, triangles: quad_triangle_list() }, true)
    }

    /// A unit quad centered on the origin of the XY plane, facing -Z, before tangents
    /// are computed and a transform is applied.
    pub fn make_centered_quad() -> (r: SurfaceData)
        ensures
            r.wf(),
            r.indices_valid(),
            r.vertex_buffer@ == static_model(centered_quad_vertices()),
            r.geometry_buffer@ == quad_triangles(),
            r.is_procedural,
            r.blend_shapes_container is None,
    {
        let vertices = vec![
            vtx([NEG_HALF, HALF, ZERO], [ONE, ONE], [NEG_ZERO, NEG_ZERO, NEG_ONE]),
            vtx([HALF, HALF, ZERO], [ZERO, ONE], [NEG_ZERO, NEG_ZERO, NEG_ONE]),
            vtx([HALF, NEG_HALF, ZERO], [ZERO, ZERO], [NEG_ZERO, NEG_ZERO, NEG_ONE]),
            vtx([NEG_HALF, NEG_HALF, ZERO], [ONE, ZERO], [NEG_ZERO, NEG_ZERO, NEG_ONE]),
        ];
        assert(vertices@ =~= centered_quad_vertices());
        SurfaceData::from_raw_mesh(RawMesh { vertices, triangles: quad_triangle_list() }, true)
    }

    /// A unit cube centered on the origin, four vertices per face, before tangents
    /// are computed and a transform is applied.
    pub fn make_unit_cube() -> (r: SurfaceData)
        ensures
            r.wf(),
            r.indices_valid(),
            r.vertex_buffer@ == static_model(cube_vertices()),
            r.geometry_buffer@ == cube_triangles(),
            r.is_procedural,
            r.blend_shapes_container is None,
    {
        let mut vertices: Vec<StaticVertex> = Vec::new();
        push_face(&mut vertices, [NEG_HALF, NEG_HALF, HALF], [NEG_HALF, HALF, HALF], [HALF, HALF, HALF], [HALF, NEG_HALF, HALF], [ZERO, ZERO, ONE]);
        push_face(&mut vertices, [NEG_HALF, NEG_HALF, NEG_HALF], [NEG_HALF, HALF, NEG_HALF], [HALF, HALF, NEG_HALF], [HALF, NEG_HALF, NEG_HALF], [NEG_ZERO, NEG_ZERO, NEG_ONE]);
        push_face(&mut vertices, [NEG_HALF, NEG_HALF, NEG_HALF], [NEG_HALF, HALF, NEG_HALF], [NEG_HALF, HALF, HALF], [NEG_HALF, NEG_HALF, HALF], [NEG_ONE, NEG_ZERO, NEG_ZERO]);
        push_face(&mut vertices, [HALF, NEG_HALF, NEG_HALF], [HALF, HALF, NEG_HALF], [HALF, HALF, HALF], [HALF, NEG_HALF, HALF], [ONE, ZERO, ZERO]);
        push_face(&mut vertices, [NEG_HALF, HALF, HALF], [NEG_HALF, HALF, NEG_HALF], [HALF, HALF, NEG_HALF], [HALF, HALF, HALF], [ZERO, ONE, ZERO]);
        push_face(&mut vertices, [NEG_HALF, NEG_HALF, HALF], [NEG_HALF, NEG_HALF, NEG_HALF], [HALF, NEG_HALF, NEG_HALF], [HALF, NEG_HALF, HALF], [NEG_ZERO, NEG_ONE, NEG_ZERO]);
        assert(vertices@ =~= cube_vertices());
        let triangles = vec![
            TriangleDefinition([2, 1, 0]), TriangleDefinition([3, 2, 0]),
            TriangleDefinition([4, 5, 6]), TriangleDefinition([4, 6, 7]),
            TriangleDefinition([10, 9, 8]), TriangleDefinition([11, 10, 8]),
            TriangleDefinition([12, 13, 14]), TriangleDefinition([12, 14, 15]),
            TriangleDefinition([18, 17, 16]), TriangleDefinition([19, 18, 16]),
            TriangleDefinition([20, 21, 22]), TriangleDefinition([20, 22, 23]),
        ];
        assert(triangles@ =~= cube_triangles());
        SurfaceData::from_raw_mesh(RawMesh { vertices, triangles }, true)
    }
}

} // verus!
