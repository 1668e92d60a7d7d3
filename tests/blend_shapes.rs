use half::f16;
use surface::blend::{grid_coord, BlendShape, BlendShapesContainer, InputBlendShapeData, FULL_WEIGHT_BITS, VOXEL_SIZE};
use surface::buffer::VertexBuffer;
use surface::raw_mesh::StaticVertex;

fn base(n: u32) -> VertexBuffer {
    VertexBuffer::new(n, &StaticVertex::layout(), vec![0u8; n as usize * 48]).unwrap()
}

fn delta(x: f32, y: f32, z: f32) -> [u16; 3] {
    [f16::from_f32(x).to_bits(), f16::from_f32(y).to_bits(), f16::from_f32(z).to_bits()]
}

fn shape(name: &str, positions: Vec<(u32, [u16; 3])>, normals: Vec<(u32, [u16; 3])>) -> InputBlendShapeData {
    InputBlendShapeData {
        default_weight: 50.0f32.to_bits(),
        name: name.to_string(),
        positions,
        normals,
        tangents: Vec::new(),
    }
}

fn voxel_halves(bytes: &[u8], offset: usize) -> Vec<u16> {
    (0..9).map(|k| u16::from_le_bytes([bytes[offset + 2 * k], bytes[offset + 2 * k + 1]])).collect()
}

#[test]
fn default_blend_shape_has_full_weight() {
    let b = BlendShape::default();
    assert_eq!(f32::from_bits(b.weight), 100.0);
    assert_eq!(b.weight, FULL_WEIGHT_BITS);
    assert!(b.name.is_empty());
}

#[test]
fn grid_of_600_vertices() {
    let shapes = vec![
        shape("a", vec![(3, delta(1.0, 2.0, 3.0))], Vec::new()),
        shape("b", vec![(599, delta(-1.0, 0.5, 0.25))], vec![(599, delta(0.0, 1.0, 0.0))]),
    ];
    let c = BlendShapesContainer::from_lists(&base(600), &shapes);
    let t = c.blend_shape_storage.unwrap();
    assert_eq!(t.width, 3 * 512);
    assert_eq!(t.height, 2);
    assert_eq!(t.depth, 2);
    assert_eq!(t.bytes.len(), 512 * 2 * 2 * VOXEL_SIZE);
    assert_eq!(grid_coord(599, 512), (87, 1));
    // Vertex 599 of the second shape: cell (87, 1) of layer 1.
    let at = ((1 * 2 + 1) * 512 + 87) * VOXEL_SIZE;
    let v = voxel_halves(&t.bytes, at);
    assert_eq!(&v[0..3], &delta(-1.0, 0.5, 0.25));
    assert_eq!(&v[3..6], &delta(0.0, 1.0, 0.0));
    assert_eq!(&v[6..9], &[0, 0, 0]);
    // The same cell of the first layer holds nothing.
    let first = voxel_halves(&t.bytes, (1 * 512 + 87) * VOXEL_SIZE);
    assert!(first.iter().all(|&h| h == 0));
    let three = voxel_halves(&t.bytes, 3 * VOXEL_SIZE);
    assert_eq!(&three[0..3], &delta(1.0, 2.0, 3.0));
    assert_eq!(c.blend_shapes.len(), 2);
    assert_eq!(c.blend_shapes[1].name, "b");
    assert_eq!(f32::from_bits(c.blend_shapes[0].weight), 50.0);
}

#[test]
fn out_of_grid_entries_are_skipped() {
    let shapes = vec![shape("a", vec![(2000, delta(1.0, 1.0, 1.0)), (1, delta(2.0, 0.0, 0.0))], Vec::new())];
    let c = BlendShapesContainer::from_lists(&base(3), &shapes);
    let t = c.blend_shape_storage.unwrap();
    assert_eq!((t.width, t.height, t.depth), (9, 1, 1));
    assert_eq!(t.bytes.len(), 3 * VOXEL_SIZE);
    let v1 = voxel_halves(&t.bytes, VOXEL_SIZE);
    assert_eq!(&v1[0..3], &delta(2.0, 0.0, 0.0));
    assert!(voxel_halves(&t.bytes, 0).iter().all(|&h| h == 0));
    assert!(voxel_halves(&t.bytes, 2 * VOXEL_SIZE).iter().all(|&h| h == 0));
}

#[test]
fn later_entry_for_a_vertex_wins() {
    let shapes = vec![shape("a", vec![(0, delta(1.0, 0.0, 0.0)), (0, delta(3.0, 0.0, 0.0))], Vec::new())];
    let c = BlendShapesContainer::from_lists(&base(1), &shapes);
    let t = c.blend_shape_storage.unwrap();
    assert_eq!(&voxel_halves(&t.bytes, 0)[0..3], &delta(3.0, 0.0, 0.0));
}

#[test]
fn no_vertices_or_no_shapes() {
    let c = BlendShapesContainer::from_lists(&base(0), &[shape("a", Vec::new(), Vec::new())]);
    let t = c.blend_shape_storage.unwrap();
    assert_eq!((t.width, t.height, t.depth), (0, 0, 1));
    assert!(t.bytes.is_empty());
    let c = BlendShapesContainer::from_lists(&base(1000), &[]);
    let t = c.blend_shape_storage.unwrap();
    assert_eq!((t.width, t.height, t.depth), (1536, 2, 0));
    assert!(t.bytes.is_empty());
    assert!(c.blend_shapes.is_empty());
}
