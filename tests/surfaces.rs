use surface::buffer::{TriangleBuffer, TriangleDefinition, VertexAttributeUsage, VertexBuffer};
use surface::hash::{batch_id, hash_combine};
use surface::persist::LoadError;
use surface::primitives::torus_triangles;
use surface::record::SurfaceRecord;
use surface::weights::ErasedHandle;
use surface::raw_mesh::{RawMesh, RawMeshBuilder, StaticVertex};
use surface::shared::SurfaceSharedData;
use surface::surface::SurfaceData;
use surface::variable::InheritableVariable;

fn bits(v: [f32; 3]) -> [u32; 3] {
    [v[0].to_bits(), v[1].to_bits(), v[2].to_bits()]
}

fn vertex(p: [f32; 3], uv: [f32; 2]) -> StaticVertex {
    StaticVertex::from_pos_uv_normal(bits(p), [uv[0].to_bits(), uv[1].to_bits()], bits([0.0, 0.0, 1.0]))
}

fn all_indices_below(data: &SurfaceData) -> bool {
    let n = data.vertex_buffer.vertex_count();
    data.geometry_buffer.triangles().iter().all(|t| t.0.iter().all(|&i| i < n))
}

#[test]
fn hash_combine_exact_values() {
    assert_eq!(hash_combine(0, 0), 0x9e37_79b9);
    assert_eq!(hash_combine(1, 2), 0x9e37_79fa);
    assert_ne!(hash_combine(1, 2), hash_combine(2, 1));
}

#[test]
fn content_hash_is_deterministic_across_instances() {
    let a = SurfaceData::make_unit_cube();
    let b = SurfaceData::make_unit_cube();
    assert_eq!(a.content_hash(), a.content_hash());
    assert_eq!(a.content_hash(), b.content_hash());
}

#[test]
fn content_hash_sees_one_changed_coordinate() {
    let a = SurfaceData::make_unit_cube();
    let mut b = SurfaceData::make_unit_cube();
    b.vertex_buffer.write_f32_bits(5, VertexAttributeUsage::Position, &bits([0.5, 0.5, -0.25])).unwrap();
    assert_ne!(a.content_hash(), b.content_hash());
    let c = SurfaceData::make_unit_xy_quad();
    let d = SurfaceData::make_collapsed_xy_quad();
    assert_ne!(c.content_hash(), d.content_hash());
}

#[test]
fn batch_id_depends_on_both_keys() {
    assert_eq!(batch_id(7, 9), batch_id(7, 9));
    assert_ne!(batch_id(7, 9), batch_id(9, 7));
    assert_ne!(batch_id(7, 9), 7);
}

#[test]
fn fixed_primitives_have_valid_indices() {
    let quad = SurfaceData::make_unit_xy_quad();
    assert_eq!(quad.vertex_buffer.vertex_count(), 4);
    assert_eq!(quad.geometry_buffer.index_words(), vec![0, 1, 2, 0, 2, 3]);
    assert!(quad.is_procedural());
    assert!(all_indices_below(&quad));
    let cube = SurfaceData::make_unit_cube();
    assert_eq!(cube.vertex_buffer.vertex_count(), 24);
    assert_eq!(cube.geometry_buffer.len(), 12);
    assert!(all_indices_below(&cube));
    let centered = SurfaceData::make_centered_quad();
    assert!(all_indices_below(&centered));
    let pos = centered.vertex_buffer.read_f32_bits(0, VertexAttributeUsage::Position, 3).unwrap();
    assert_eq!(pos, bits([-0.5, 0.5, 0.0]).to_vec());
}

#[test]
fn cube_face_normal_points_out() {
    let cube = SurfaceData::make_unit_cube();
    let n = cube.vertex_buffer.read_f32_bits(20, VertexAttributeUsage::Normal, 3).unwrap();
    assert_eq!(n, bits([-0.0, -1.0, -0.0]).to_vec());
    let uv = cube.vertex_buffer.read_f32_bits(2, VertexAttributeUsage::TexCoord0, 2).unwrap();
    assert_eq!(uv, vec![1.0f32.to_bits(), 1.0f32.to_bits()]);
}

#[test]
fn torus_topology() {
    let t = torus_triangles(1, 1);
    assert_eq!(t, vec![TriangleDefinition([2, 3, 0]), TriangleDefinition([0, 3, 1])]);
    let t = torus_triangles(3, 4);
    assert_eq!(t.len(), 24);
    assert!(t.iter().all(|tr| tr.0.iter().all(|&i| i < 20)));
    assert!(torus_triangles(0, 5).is_empty());
    assert!(torus_triangles(5, 0).is_empty());
}

#[test]
fn builder_shares_equal_vertices() {
    let mut b = RawMeshBuilder::new();
    assert!(b.insert(vertex([0.0, 0.0, 0.0], [0.0, 0.0])));
    assert!(b.insert(vertex([1.0, 0.0, 0.0], [1.0, 0.0])));
    assert!(b.insert(vertex([0.0, 1.0, 0.0], [0.0, 1.0])));
    assert!(!b.insert(vertex([1.0, 0.0, 0.0], [1.0, 0.0])));
    assert!(b.insert(vertex([1.0, 1.0, 0.0], [1.0, 1.0])));
    assert!(!b.insert(vertex([0.0, 1.0, 0.0], [0.0, 1.0])));
    assert_eq!(b.vertex_count(), 4);
    let mesh = b.build();
    assert_eq!(mesh.vertices.len(), 4);
    assert_eq!(mesh.triangles, vec![TriangleDefinition([0, 1, 2]), TriangleDefinition([1, 3, 2])]);
    let data = SurfaceData::from_raw_mesh(mesh, true);
    assert_eq!(data.vertex_buffer.vertex_count(), 4);
    assert!(all_indices_below(&data));
}

#[test]
fn last_triangle_sets_face_normal_source() {
    let quad = SurfaceData::make_unit_xy_quad();
    assert_eq!(quad.face_normal_sources(), vec![Some(1), Some(0), Some(1), Some(1)]);
    let vb = VertexBuffer::new(3, &StaticVertex::layout(), vec![0u8; 144]).unwrap();
    let lonely = SurfaceData::new(vb, TriangleBuffer::new(vec![TriangleDefinition([0, 1, 0])]), false);
    assert_eq!(lonely.face_normal_sources(), vec![Some(0), Some(0), None]);
}

#[test]
fn clear_and_procedural_flag() {
    let mut data = SurfaceData::make_unit_xy_quad();
    data.set_procedural(false);
    assert!(!data.is_procedural());
    data.clear();
    assert_eq!(data.vertex_buffer.vertex_count(), 0);
    assert!(data.geometry_buffer.is_empty());
    assert_eq!(data.vertex_buffer.vertex_size(), 48);
}

#[test]
fn procedural_surface_round_trips() {
    let cube = SurfaceData::make_unit_cube();
    let bytes = cube.save();
    assert_eq!(bytes[0], 1);
    let loaded = SurfaceData::load(&bytes).unwrap();
    assert!(loaded.is_procedural());
    assert_eq!(loaded.vertex_buffer.raw_data(), cube.vertex_buffer.raw_data());
    assert_eq!(loaded.geometry_buffer.raw_data(), cube.geometry_buffer.raw_data());
    assert_eq!(loaded.vertex_buffer.layout(), cube.vertex_buffer.layout());
    assert_eq!(loaded.content_hash(), cube.content_hash());
}

#[test]
fn non_procedural_surface_saves_no_geometry() {
    let mut quad = SurfaceData::make_unit_xy_quad();
    quad.set_procedural(false);
    let bytes = quad.save();
    assert_eq!(bytes, vec![0]);
    let loaded = SurfaceData::load(&bytes).unwrap();
    assert!(!loaded.is_procedural());
    assert_eq!(loaded.vertex_buffer.vertex_count(), 0);
    assert!(loaded.geometry_buffer.is_empty());
}

#[test]
fn malformed_records_are_rejected() {
    assert_eq!(SurfaceData::load(&[]).unwrap_err(), LoadError::Truncated);
    assert_eq!(SurfaceData::load(&[2]).unwrap_err(), LoadError::InvalidFlag);
    assert_eq!(SurfaceData::load(&[0, 0]).unwrap_err(), LoadError::TrailingBytes);
    let good = SurfaceData::make_unit_xy_quad().save();
    assert_eq!(SurfaceData::load(&good[..good.len() - 1]).unwrap_err(), LoadError::Truncated);
    let mut longer = good.clone();
    longer.push(0);
    assert_eq!(SurfaceData::load(&longer).unwrap_err(), LoadError::TrailingBytes);
    let mut bad_tag = good.clone();
    bad_tag[9] = 42;
    assert_eq!(SurfaceData::load(&bad_tag).unwrap_err(), LoadError::InvalidTag);
}

#[test]
fn raw_mesh_keeps_triangles() {
    let mesh = RawMesh { vertices: vec![vertex([0.0, 0.0, 0.0], [0.0, 0.0])], triangles: vec![TriangleDefinition([0, 0, 0])] };
    let data = SurfaceData::from_raw_mesh(mesh, false);
    assert!(!data.is_procedural());
    assert_eq!(data.geometry_buffer.index_words(), vec![0, 0, 0]);
}

#[test]
fn shared_data_identity_and_use_count() {
    let shared = SurfaceSharedData::new(SurfaceData::make_unit_cube());
    let first = shared.clone();
    let second = shared.clone();
    drop(shared);
    assert!(first == second);
    assert_eq!(first.key(), second.key());
    assert_eq!(first.use_count(), 2);
    let copy = first.deep_clone();
    assert_eq!(copy.use_count(), 1);
    assert!(copy != first);
    assert_ne!(copy.key(), first.key());
    assert_eq!(copy.lock().content_hash(), first.lock().content_hash());
}

#[test]
fn change_tracked_value() {
    let mut v = InheritableVariable::new(3u32);
    assert!(!v.is_modified());
    assert_eq!(v.set_value_silent(4), 3);
    assert!(!v.is_modified());
    assert_eq!(v.set_value_and_mark_modified(5), 4);
    assert!(v.is_modified());
    assert_eq!(*v.get(), 5);
    assert_eq!(v.take(), 5);
}

fn position(data: &SurfaceData, i: u32) -> [f32; 3] {
    let v = data.vertex_buffer.read_f32_bits(i as usize, VertexAttributeUsage::Position, 3).unwrap();
    [f32::from_bits(v[0]), f32::from_bits(v[1]), f32::from_bits(v[2])]
}

fn normal(data: &SurfaceData, i: u32) -> [f32; 3] {
    let v = data.vertex_buffer.read_f32_bits(i as usize, VertexAttributeUsage::Normal, 3).unwrap();
    [f32::from_bits(v[0]), f32::from_bits(v[1]), f32::from_bits(v[2])]
}

/// Every triangle, seen from the side its vertex normals point to, winds counter-clockwise.
fn winds_with_normals(data: &SurfaceData) -> bool {
    data.geometry_buffer.triangles().iter().all(|t| {
        let [a, b, c] = t.0.map(|i| position(data, i));
        let e1 = [b[0] - a[0], b[1] - a[1], b[2] - a[2]];
        let e2 = [c[0] - a[0], c[1] - a[1], c[2] - a[2]];
        let f = [e1[1] * e2[2] - e1[2] * e2[1], e1[2] * e2[0] - e1[0] * e2[2], e1[0] * e2[1] - e1[1] * e2[0]];
        let n = normal(data, t.0[0]);
        f[0] * n[0] + f[1] * n[1] + f[2] * n[2] > 0.0
    })
}

#[test]
fn fixed_primitives_wind_counter_clockwise() {
    assert!(winds_with_normals(&SurfaceData::make_unit_cube()));
    assert!(winds_with_normals(&SurfaceData::make_unit_xy_quad()));
}

#[test]
fn face_normals_follow_the_last_triangle() {
    let mut quad = SurfaceData::make_unit_xy_quad();
    let first = bits([1.0, 0.0, 0.0]);
    let second = bits([0.0, 1.0, 0.0]);
    quad.set_face_normals(&[first, second]).unwrap();
    assert_eq!(normal(&quad, 0), [0.0, 1.0, 0.0]);
    assert_eq!(normal(&quad, 1), [1.0, 0.0, 0.0]);
    assert_eq!(normal(&quad, 2), [0.0, 1.0, 0.0]);
    assert_eq!(normal(&quad, 3), [0.0, 1.0, 0.0]);
    assert_eq!(position(&quad, 2), [1.0, 1.0, 0.0]);
}

#[test]
fn face_normals_need_a_normal_attribute() {
    let layout = [surface::buffer::VertexAttributeDescriptor {
        usage: VertexAttributeUsage::Position,
        data_type: surface::buffer::VertexAttributeDataType::F32,
        size: 3,
        divisor: 0,
        shader_location: 0,
    }];
    let vb = VertexBuffer::new(3, &layout, vec![0u8; 36]).unwrap();
    let mut data = SurfaceData::new(vb, TriangleBuffer::new(vec![TriangleDefinition([0, 1, 2])]), true);
    assert_eq!(
        data.set_face_normals(&[bits([0.0, 0.0, 1.0])]).unwrap_err(),
        surface::buffer::VertexFetchError::NoSuchAttribute(VertexAttributeUsage::Normal)
    );
}

#[test]
fn batch_id_is_two_fx_steps() {
    let k: u64 = 0x517c_c1b7_2722_0a95;
    let (a, b) = (0x1234_5678_9abc_def0u64, 42u64);
    let expected = (a.wrapping_mul(k).rotate_left(5) ^ b).wrapping_mul(k);
    assert_eq!(batch_id(a, b), expected);
}

#[test]
fn non_procedural_record_keeps_existing_buffers() {
    let mut cube = SurfaceData::make_unit_cube();
    let before = cube.vertex_buffer.raw_data().to_vec();
    cube.load_into(&[0]).unwrap();
    assert!(!cube.is_procedural());
    assert_eq!(cube.vertex_buffer.raw_data(), &before[..]);
    assert_eq!(cube.geometry_buffer.len(), 12);
    let quad = SurfaceData::make_unit_xy_quad();
    cube.load_into(&quad.save()).unwrap();
    assert!(cube.is_procedural());
    assert_eq!(cube.vertex_buffer.vertex_count(), 4);
    assert_eq!(cube.geometry_buffer.raw_data(), quad.geometry_buffer.raw_data());
    assert_eq!(cube.load_into(&[7]).unwrap_err(), LoadError::InvalidFlag);
    assert_eq!(cube.vertex_buffer.vertex_count(), 4);
}

#[test]
fn generated_primitives_have_no_blend_shapes() {
    assert!(SurfaceData::make_unit_cube().blend_shapes_container.is_none());
    assert!(SurfaceData::make_unit_xy_quad().blend_shapes_container.is_none());
    assert!(SurfaceData::make_collapsed_xy_quad().blend_shapes_container.is_none());
    assert!(SurfaceData::make_centered_quad().blend_shapes_container.is_none());
}

#[test]
fn failed_face_normals_change_nothing() {
    let layout = [surface::buffer::VertexAttributeDescriptor {
        usage: VertexAttributeUsage::Normal,
        data_type: surface::buffer::VertexAttributeDataType::F32,
        size: 4,
        divisor: 0,
        shader_location: 0,
    }];
    let bytes: Vec<u8> = (0u8..48).collect();
    let vb = VertexBuffer::new(3, &layout, bytes.clone()).unwrap();
    let mut data = SurfaceData::new(vb, TriangleBuffer::new(vec![TriangleDefinition([0, 1, 2])]), true);
    assert_eq!(
        data.set_face_normals(&[bits([0.0, 0.0, 1.0])]).unwrap_err(),
        surface::buffer::VertexFetchError::SizeMismatch { expected: 4, actual: 3 }
    );
    assert_eq!(data.vertex_buffer.raw_data(), &bytes[..]);
}

#[test]
fn surface_record_round_trips() {
    let rec = SurfaceRecord {
        data: SurfaceData::make_unit_xy_quad().save(),
        bones: vec![ErasedHandle::new(3, 1), ErasedHandle::new(7, 2)],
        unique_material: true,
    };
    let bytes = rec.save();
    let back = SurfaceRecord::load(&bytes).unwrap();
    assert_eq!(back.data, rec.data);
    assert_eq!(back.bones, rec.bones);
    assert!(back.unique_material);
    // A record written before the flag existed reads it as unset.
    let older = SurfaceRecord::load(&bytes[..bytes.len() - 1]).unwrap();
    assert_eq!(older.bones, rec.bones);
    assert!(!older.unique_material);
    let mut bad = bytes.clone();
    *bad.last_mut().unwrap() = 2;
    assert_eq!(SurfaceRecord::load(&bad).unwrap_err(), LoadError::InvalidFlag);
    assert_eq!(SurfaceRecord::load(&bytes[..bytes.len() - 2]).unwrap_err(), LoadError::Truncated);
    let mut longer = bytes.clone();
    longer.push(0);
    assert_eq!(SurfaceRecord::load(&longer).unwrap_err(), LoadError::TrailingBytes);
}
