//! Blend shapes, packed into one volume texture for a vertex shader.

use vstd::prelude::*;
use crate::buffer::VertexBuffer;
use crate::bytes::{halves_le, push_halves_le, lemma_halves_le_len};

verus! {

/// Bit pattern of the `f32` value 100.0, the default weight of a blend shape.
pub const FULL_WEIGHT_BITS: u32 = 0x42c8_0000;

/// Widest row of the blend-shape grid, in vertices.
pub const MAX_GRID_WIDTH: u32 = 512;

/// Bytes of one voxel: three deltas of three half-precision components.
pub const VOXEL_SIZE: usize = 18;

/// A target shape for blending.
#[derive(Clone, Debug)]
pub struct BlendShape {
    /// Bit pattern of the `f32` weight, in `[0, 100]`.
    pub weight: u32,
    pub name: String,
}

impl Default for BlendShape {
    /// A shape with no name and full weight.
    fn default() -> (r: BlendShape)
        ensures
            r.weight == FULL_WEIGHT_BITS,
            r.name@.len() == 0,
    {
        BlendShape { weight: FULL_WEIGHT_BITS, name: String::new() }
    }
}

/// A delta of three half-precision components (their bit patterns).
pub type Delta = [u16; 3];

/// A set of offsets for particular vertices: each list maps a vertex index to a
/// delta; where an index occurs twice the later entry counts.
#[derive(Clone, Debug)]
pub struct InputBlendShapeData {
    /// Bit pattern of the `f32` default weight.
    pub default_weight: u32,
    pub name: String,
    pub positions: Vec<(u32, Delta)>,
    pub normals: Vec<(u32, Delta)>,
    pub tangents: Vec<(u32, Delta)>,
}

/// The voxel of one vertex in one layer.
#[derive(Clone, Copy, Debug, PartialEq, Eq)]
pub struct VertexData {
    pub position: Delta,
    pub normal: Delta,
    pub tangent: Delta,
}

/// A volume texture of half-precision RGB pixels.
#[derive(Clone, Debug)]
pub struct VolumeTexture {
    pub width: u32,
    pub height: u32,
    pub depth: u32,
    pub bytes: Vec<u8>,
}

/// A container for multiple blend shapes.
#[derive(Clone, Debug)]
pub struct BlendShapesContainer {
    pub blend_shapes: Vec<BlendShape>,
    /// All blend shapes at once, one layer per shape.
    pub blend_shape_storage: Option<VolumeTexture>,
}

pub open spec fn zero_delta() -> Delta {
    [0u16, 0u16, 0u16]
}

pub open spec fn zero_voxel() -> VertexData {
    VertexData { position: zero_delta(), normal: zero_delta(), tangent: zero_delta() }
}

/// The delta of the last entry of `entries` for vertex `index`, if any.
pub open spec fn last_delta(entries: Seq<(u32, Delta)>, index: int) -> Option<Delta>
    decreases entries.len(),
{
    if entries.len() == 0 {
        None
    } else if entries.last().0 == index {
        Some(entries.last().1)
    } else {
        last_delta(entries.drop_last(), index)
    }
}

pub open spec fn delta_or_zero(entries: Seq<(u32, Delta)>, index: int) -> Delta {
    match last_delta(entries, index) {
        Some(d) => d,
        None => zero_delta(),
    }
}

/// The voxel of vertex `index` in the layer of `shape`.
pub open spec fn voxel_of(shape: InputBlendShapeData, index: int) -> VertexData {
    VertexData {
        position: delta_or_zero(shape.positions@, index),
        normal: delta_or_zero(shape.normals@, index),
        tangent: delta_or_zero(shape.tangents@, index),
    }
}

/// Width of the grid for `n` vertices.
pub open spec fn grid_width(n: nat) -> nat {
    if n < MAX_GRID_WIDTH { n } else { MAX_GRID_WIDTH as nat }
}

/// Height of the grid for `n` vertices: enough rows for all of them.
pub open spec fn grid_height(n: nat) -> nat {
    if grid_width(n) == 0 { 0 } else { ((n + grid_width(n) - 1) / (grid_width(n) as int)) as nat }
}

pub open spec fn grid_cells(n: nat) -> nat {
    grid_width(n) * grid_height(n)
}

/// One layer: the voxel of every cell of the grid.
pub open spec fn layer_of(shape: InputBlendShapeData, cells: nat) -> Seq<VertexData> {
    Seq::new(cells, |c: int| voxel_of(shape, c))
}

pub open spec fn voxel_halves(v: VertexData) -> Seq<u16> {
    v.position@ + v.normal@ + v.tangent@
}

pub open spec fn cells_bytes(cs: Seq<VertexData>) -> Seq<u8>
    decreases cs.len(),
{
    if cs.len() == 0 {
        Seq::empty()
    } else {
        cells_bytes(cs.drop_last()) + halves_le(voxel_halves(cs.last()))
    }
}

pub open spec fn layers_bytes(ls: Seq<Seq<VertexData>>) -> Seq<u8>
    decreases ls.len(),
{
    if ls.len() == 0 {
        Seq::empty()
    } else {
        layers_bytes(ls.drop_last()) + cells_bytes(ls.last())
    }
}

/// The packed bytes of all layers of `shapes`, layer after layer, cell after cell.
pub open spec fn packed_bytes(shapes: Seq<InputBlendShapeData>, cells: nat) -> Seq<u8> {
    layers_bytes(Seq::new(shapes.len(), |l: int| layer_of(shapes[l], cells)))
}

proof fn lemma_cells_bytes_len(cs: Seq<VertexData>)
    ensures
        cells_bytes(cs).len() == VOXEL_SIZE * cs.len(),
    decreases cs.len(),
{
    if cs.len() > 0 {
        lemma_cells_bytes_len(cs.drop_last());
        lemma_halves_le_len(voxel_halves(cs.last()));
    }
}

proof fn lemma_layers_bytes_len(ls: Seq<Seq<VertexData>>, cells: nat)
    requires
        forall|l: int| 0 <= l < ls.len() ==> (#[trigger] ls[l]).len() == cells,
    ensures
        layers_bytes(ls).len() == VOXEL_SIZE * cells * ls.len(),
    decreases ls.len(),
{
    if ls.len() > 0 {
        lemma_layers_bytes_len(ls.drop_last(), cells);
        lemma_cells_bytes_len(ls.last());
        assert(VOXEL_SIZE * cells * (ls.len() - 1) + VOXEL_SIZE * cells == VOXEL_SIZE * cells * ls.len()) by (nonlinear_arith);
    }
}

/// Column and row of vertex `index` in a grid `width` vertices wide.
pub fn grid_coord(index: u32, width: u32) -> (r: (u32, u32))
    requires
        width > 0,
    ensures
        r.0 == index % width,
        r.1 == index / width,
        r.1 * width + r.0 == index,
{
    let y = index / width;
    let x = index % width;
    proof {
        vstd::arithmetic::div_mod::lemma_fundamental_div_mod(index as int, width as int);
        assert((y as int) * (width as int) == (width as int) * (y as int)) by (nonlinear_arith);
    }
    (x, y)
}

/// Writes the deltas of `entries` into the voxels of `vox` chosen by `field`
/// (0 position, 1 normal, 2 tangent); indices outside the grid are skipped.
fn fill_field(vox: &mut Vec<VertexData>, entries: &[(u32, Delta)], width: u32, height: u32, field: u8)
    requires
        old(vox)@.len() == width * height,
        field < 3,
        width > 0 || height == 0,
    ensures
        final(vox)@.len() == old(vox)@.len(),
        forall|c: int| 0 <= c < old(vox)@.len() ==> {
            let v = #[trigger] final(vox)@[c];
            let o = old(vox)@[c];
            let d = match last_delta(entries@, c) {
                Some(d) => d,
                None => if field == 0 { o.position } else if field == 1 { o.normal } else { o.tangent },
            };
            &&& (field == 0 ==> v == VertexData { position: d, ..o })
            &&& (field == 1 ==> v == VertexData { normal: d, ..o })
            &&& (field == 2 ==> v == VertexData { tangent: d, ..o })
        },
{
    let ghost start = vox@;
    let mut e: usize = 0;
    while e < entries.len()
        invariant
            0 <= e <= entries@.len(),
            vox@.len() == start.len(),
            start.len() == width * height,
            field < 3,
            width > 0 || height == 0,
            forall|c: int| 0 <= c < start.len() ==> {
                let v = #[trigger] vox@[c];
                let o = start[c];
                let d = match last_delta(entries@.subrange(0, e as int), c) {
                    Some(d) => d,
                    None => if field == 0 { o.position } else if field == 1 { o.normal } else { o.tangent },
                };
                &&& (field == 0 ==> v == VertexData { position: d, ..o })
                &&& (field == 1 ==> v == VertexData { normal: d, ..o })
                &&& (field == 2 ==> v == VertexData { tangent: d, ..o })
            },
        decreases entries@.len() - e,
    {
        let (index, delta) = entries[e];
        let ghost pre = vox@;
        proof {
            assert(entries@.subrange(0, e + 1).drop_last() =~= entries@.subrange(0, e as int));
            assert(entries@.subrange(0, e + 1).last() == entries@[e as int]);
        }
        if width > 0 {
            let (x, y) = grid_coord(index, width);
            if y < height {
                let cell: usize = (y as usize) * (width as usize) + (x as usize);
                proof {
                    assert((y as int) * (width as int) + (width as int) <= (height as int) * (width as int)) by (nonlinear_arith)
                        requires y < height;
                    assert(x < width);
                    assert((height as int) * (width as int) == (width as int) * (height as int)) by (nonlinear_arith);
                    assert(cell == index);
                    assert(cell < vox@.len());
                }
                let mut v = vox[cell];
                if field == 0 {
                    v.position = delta;
                } else if field == 1 {
                    v.normal = delta;
                } else {
                    v.tangent = delta;
                }
                vox.set(cell, v);
            } else {
                proof {
                    assert((height as int) * (width as int) <= (y as int) * (width as int)) by (nonlinear_arith)
                        requires y >= height;
                    assert((height as int) * (width as int) == (width as int) * (height as int)) by (nonlinear_arith);
                    assert(index as int >= start.len());
                }
            }
        }
        e = e + 1;
    }
    assert(entries@.subrange(0, entries@.len() as int) =~= entries@);
}

/// Builds the layer of `shape`: the voxel of every cell of the grid.
fn build_layer(shape: &InputBlendShapeData, width: u32, height: u32, cells: usize) -> (r: Vec<VertexData>)
    requires
        cells == width * height,
        width > 0 || height == 0,
    ensures
        r@ == layer_of(*shape, cells as nat),
{
    let mut vox: Vec<VertexData> = Vec::new();
    let mut c: usize = 0;
    let zero = VertexData { position: [0u16, 0u16, 0u16], normal: [0u16, 0u16, 0u16], tangent: [0u16, 0u16, 0u16] };
    while c < cells
        invariant
            0 <= c <= cells,
            vox@.len() == c,
            forall|i: int| 0 <= i < c ==> vox@[i] == zero,
            zero == zero_voxel(),
        decreases cells - c,
    {
        vox.push(zero);
        c = c + 1;
    }
    assert(zero == zero_voxel()) by {
        assert(zero.position@ =~= zero_delta()@);
    }
    fill_field(&mut vox, shape.positions.as_slice(), width, height, 0);
    fill_field(&mut vox, shape.normals.as_slice(), width, height, 1);
    fill_field(&mut vox, shape.tangents.as_slice(), width, height, 2);
    assert(vox@ =~= layer_of(*shape, cells as nat));
    vox
}

/// Appends the bytes of every voxel of `layer` to `out`.
fn push_layer_bytes(out: &mut Vec<u8>, layer: &Vec<VertexData>)
    ensures
        final(out)@ == old(out)@ + cells_bytes(layer@),
{
    let ghost start = out@;
    let mut c: usize = 0;
    while c < layer.len()
        invariant
            0 <= c <= layer@.len(),
            out@ == start + cells_bytes(layer@.subrange(0, c as int)),
        decreases layer@.len() - c,
    {
        let v = layer[c];
        let hs: [u16; 9] = [
            v.position[0], v.position[1], v.position[2],
            v.normal[0], v.normal[1], v.normal[2],
            v.tangent[0], v.tangent[1], v.tangent[2],
        ];
        push_halves_le(out, hs.as_slice());
        proof {
            assert(hs@ =~= voxel_halves(v));
            assert(layer@.subrange(0, c + 1).drop_last() =~= layer@.subrange(0, c as int));
            assert(out@ =~= start + cells_bytes(layer@.subrange(0, c + 1)));
        }
        c = c + 1;
    }
    assert(layer@.subrange(0, layer@.len() as int) =~= layer@);
}

impl BlendShapesContainer {
    /// Packs all blend shapes into one volume texture. The grid is
    /// `min(vertex_count, 512)` vertices wide and as many rows high as the vertices
    /// need; the texture is three times as wide, one layer deep per shape, and holds
    /// each voxel's three deltas side by side.
    pub fn from_lists(base_shape: &VertexBuffer, input_blend_shapes: &[InputBlendShapeData]) -> (r: BlendShapesContainer)
        requires
            input_blend_shapes@.len() <= u32::MAX,
            grid_cells(base_shape@.vertex_count) * input_blend_shapes@.len() * VOXEL_SIZE <= usize::MAX,
        ensures
            r.blend_shapes@.len() == input_blend_shapes@.len(),
            forall|i: int| 0 <= i < input_blend_shapes@.len() ==> (#[trigger] r.blend_shapes@[i]).weight
                == input_blend_shapes@[i].default_weight && r.blend_shapes@[i].name@ == input_blend_shapes@[i].name@,
            r.blend_shape_storage matches Some(t) && {
                let n = base_shape@.vertex_count;
                &&& t.width == 3 * grid_width(n)
                &&& t.height == grid_height(n)
                &&& t.depth == input_blend_shapes@.len()
                &&& t.bytes@ == packed_bytes(input_blend_shapes@, grid_cells(n))
                &&& t.bytes@.len() == grid_cells(n) * input_blend_shapes@.len() * VOXEL_SIZE
            },
    {
        let n = base_shape.vertex_count();
        let width: u32 = if n < MAX_GRID_WIDTH { n } else { MAX_GRID_WIDTH };
        proof {
            if width > 0 {
                assert(((n as int) + (width as int) - 1) / (width as int) <= n as int) by (nonlinear_arith)
                    requires width >= 1, n >= width;
            }
        }
        let height: u32 = if width == 0 { 0 } else { (((n as u64) + (width as u64) - 1) / (width as u64)) as u32 };
        proof {
            assert(grid_cells(n as nat) == (width as int) * (height as int));
            assert(grid_cells(n as nat) * input_blend_shapes@.len() <= grid_cells(n as nat) * input_blend_shapes@.len() * VOXEL_SIZE) by (nonlinear_arith);
            assert((width as int) * (height as int) <= grid_cells(n as nat) * input_blend_shapes@.len() * VOXEL_SIZE || input_blend_shapes@.len() == 0) by (nonlinear_arith)
                requires grid_cells(n as nat) == (width as int) * (height as int), input_blend_shapes@.len() >= 0;
        }
        let depth: u32 = input_blend_shapes.len() as u32;
        let ghost layers = Seq::new(input_blend_shapes@.len(), |l: int| layer_of(input_blend_shapes@[l], grid_cells(n as nat)));
        let cells: usize = if depth == 0 { 0 } else { (width as usize) * (height as usize) };
        let mut bytes: Vec<u8> = Vec::new();
        let mut shapes: Vec<BlendShape> = Vec::new();
        let mut l: usize = 0;
        while l < input_blend_shapes.len()
            invariant
                0 <= l <= input_blend_shapes@.len(),
                depth == input_blend_shapes@.len(),
                depth > 0 ==> cells == width * height,
                width > 0 || height == 0,
                grid_cells(n as nat) == width * height,
                layers == Seq::new(input_blend_shapes@.len(), |l: int| layer_of(input_blend_shapes@[l], grid_cells(n as nat))),
                bytes@ == layers_bytes(layers.subrange(0, l as int)),
                shapes@.len() == l,
                forall|i: int| 0 <= i < l ==> (#[trigger] shapes@[i]).weight == input_blend_shapes@[i].default_weight
                    && shapes@[i].name@ == input_blend_shapes@[i].name@,
            decreases input_blend_shapes@.len() - l,
        {
            let shape = &input_blend_shapes[l];
            let layer = build_layer(shape, width, height, cells);
            push_layer_bytes(&mut bytes, &layer);
            shapes.push(BlendShape { weight: shape.default_weight, name: shape.name.clone() });
            proof {
                assert(layers.subrange(0, l + 1).drop_last() =~= layers.subrange(0, l as int));
                assert(layer@ == layers[l as int]);
            }
            l = l + 1;
        }
        proof {
            assert(layers.subrange(0, layers.len() as int) =~= layers);
            lemma_layers_bytes_len(layers, grid_cells(n as nat));
            let g = grid_cells(n as nat);
            let d = input_blend_shapes@.len();
            assert(VOXEL_SIZE * g * d == g * d * VOXEL_SIZE) by (nonlinear_arith);
            assert(bytes@ == packed_bytes(input_blend_shapes@, g));
        }
        BlendShapesContainer {
            blend_shapes: shapes,
            blend_shape_storage: Some(VolumeTexture { width: width * 3, height, depth, bytes }),
        }
    }
}

} // verus!

verus! {

proof fn lemma_cells_bytes_slice(cs: Seq<VertexData>, c: int)
    requires
        0 <= c < cs.len(),
    ensures
        cells_bytes(cs).len() == VOXEL_SIZE * cs.len(),
        cells_bytes(cs).subrange(VOXEL_SIZE * c, VOXEL_SIZE * c + VOXEL_SIZE) == halves_le(voxel_halves(cs[c])),
    decreases cs.len(),
{
    lemma_cells_bytes_len(cs);
    lemma_cells_bytes_len(cs.drop_last());
    lemma_halves_le_len(voxel_halves(cs.last()));
    let pre = cells_bytes(cs.drop_last());
    let last = halves_le(voxel_halves(cs.last()));
    if c < cs.len() - 1 {
        lemma_cells_bytes_slice(cs.drop_last(), c);
        assert(cells_bytes(cs).subrange(VOXEL_SIZE * c, VOXEL_SIZE * c + VOXEL_SIZE) =~= pre.subrange(VOXEL_SIZE * c, VOXEL_SIZE * c + VOXEL_SIZE));
    } else {
        assert(cells_bytes(cs).subrange(VOXEL_SIZE * c, VOXEL_SIZE * c + VOXEL_SIZE) =~= last);
    }
}

proof fn lemma_layers_bytes_slice(ls: Seq<Seq<VertexData>>, cells: nat, l: int, c: int)
    requires
        0 <= l < ls.len(),
        0 <= c < cells,
        forall|i: int| 0 <= i < ls.len() ==> (#[trigger] ls[i]).len() == cells,
    ensures
        layers_bytes(ls).subrange(VOXEL_SIZE * (l * cells + c), VOXEL_SIZE * (l * cells + c) + VOXEL_SIZE) == halves_le(voxel_halves(ls[l][c])),
    decreases ls.len(),
{
    let start = VOXEL_SIZE * (l * cells + c);
    lemma_layers_bytes_len(ls.drop_last(), cells);
    let pre = layers_bytes(ls.drop_last());
    let last = cells_bytes(ls.last());
    lemma_cells_bytes_len(ls.last());
    if l < ls.len() - 1 {
        lemma_layers_bytes_slice(ls.drop_last(), cells, l, c);
        assert(l * cells + c < (ls.len() - 1) * cells) by (nonlinear_arith)
            requires l < ls.len() - 1, c < cells;
        assert(start + VOXEL_SIZE <= VOXEL_SIZE * cells * (ls.len() - 1)) by (nonlinear_arith)
            requires l * cells + c < (ls.len() - 1) * cells, start == VOXEL_SIZE * (l * cells + c);
        assert(layers_bytes(ls).subrange(start, start + VOXEL_SIZE) =~= pre.subrange(start, start + VOXEL_SIZE));
    } else {
        lemma_cells_bytes_slice(ls.last(), c);
        assert(VOXEL_SIZE * cells * (ls.len() - 1) + VOXEL_SIZE * c == start) by (nonlinear_arith)
            requires l == ls.len() - 1, start == VOXEL_SIZE * (l * cells + c);
        assert(layers_bytes(ls).subrange(start, start + VOXEL_SIZE) =~= last.subrange(VOXEL_SIZE * c, VOXEL_SIZE * c + VOXEL_SIZE));
    }
}

/// Where a delta lands: the voxel of vertex `index` in layer `layer` is the one at
/// column `index % width`, row `index / width` of that layer, and its bytes in the
/// packed texture are the deltas the shape gives that vertex (zero where it gives
/// none).
pub proof fn lemma_blend_delta_location(shapes: Seq<InputBlendShapeData>, n: nat, layer: int, index: int)
    requires
        0 <= layer < shapes.len(),
        0 <= index < n,
    ensures
        ({
            let w = grid_width(n);
            let cells = grid_cells(n);
            let x = index % (w as int);
            let y = index / (w as int);
            let at = VOXEL_SIZE * ((layer * grid_height(n) + y) * w + x);
            &&& w > 0
            &&& index < cells
            &&& y < grid_height(n)
            &&& packed_bytes(shapes, cells).subrange(at, at + VOXEL_SIZE) == halves_le(voxel_halves(voxel_of(shapes[layer], index)))
        }),
{
    let w = grid_width(n);
    let h = grid_height(n);
    let cells = grid_cells(n);
    let x = index % (w as int);
    let y = index / (w as int);
    assert(w > 0);
    vstd::arithmetic::div_mod::lemma_fundamental_div_mod(index, w as int);
    assert(n <= w * h) by (nonlinear_arith)
        requires w > 0, h == (n + w - 1) / (w as int);
    assert(y < h) by (nonlinear_arith)
        requires y == index / (w as int), index < n, n <= w * h, w > 0;
    assert((layer * h + y) * w + x == layer * cells + index) by (nonlinear_arith)
        requires cells == w * h, index == w * y + x;
    let ls = Seq::new(shapes.len(), |l: int| layer_of(shapes[l], cells));
    lemma_layers_bytes_slice(ls, cells, layer, index);
}

} // verus!
