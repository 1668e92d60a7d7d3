use surface::buffer::{
    TriangleBuffer, TriangleDefinition, ValidationError, VertexAttributeDataType,
    VertexAttributeDescriptor, VertexAttributeUsage, VertexBuffer, VertexFetchError,
};
use surface::raw_mesh::StaticVertex;

fn desc(usage: VertexAttributeUsage, data_type: VertexAttributeDataType, size: u8) -> VertexAttributeDescriptor {
    VertexAttributeDescriptor { usage, data_type, size, divisor: 0, shader_location: 0 }
}

fn two_vertex_buffer() -> VertexBuffer {
    // Position (3 x f32) then a u8 color (4 x u8): 16 bytes per vertex.
    let layout = [
        desc(VertexAttributeUsage::Position, VertexAttributeDataType::F32, 3),
        desc(VertexAttributeUsage::Color, VertexAttributeDataType::U8, 4),
    ];
    let data: Vec<u8> = (0u8..32).collect();
    VertexBuffer::new(2, &layout, data).unwrap()
}

#[test]
fn static_layout_is_packed() {
    let vb = VertexBuffer::new(1, &StaticVertex::layout(), vec![0u8; 48]).unwrap();
    assert_eq!(vb.vertex_size(), 48);
    assert_eq!(vb.vertex_count(), 1);
    let offsets: Vec<u8> = vb.layout().iter().map(|a| a.offset).collect();
    assert_eq!(offsets, vec![0, 12, 20, 32]);
}

#[test]
fn duplicated_usage_is_rejected() {
    let layout = [
        desc(VertexAttributeUsage::Position, VertexAttributeDataType::F32, 3),
        desc(VertexAttributeUsage::Position, VertexAttributeDataType::F32, 2),
    ];
    assert_eq!(VertexBuffer::new(0, &layout, Vec::new()).unwrap_err(), ValidationError::DuplicatedAttributeDescriptor);
}

#[test]
fn too_large_vertex_is_rejected() {
    let layout = [
        desc(VertexAttributeUsage::Position, VertexAttributeDataType::F32, 40),
        desc(VertexAttributeUsage::Normal, VertexAttributeDataType::F32, 40),
    ];
    assert_eq!(VertexBuffer::new(0, &layout, Vec::new()).unwrap_err(), ValidationError::TooLargeVertex);
}

#[test]
fn wrong_data_size_is_rejected() {
    let layout = [desc(VertexAttributeUsage::Position, VertexAttributeDataType::F32, 3)];
    assert_eq!(
        VertexBuffer::new(2, &layout, vec![0u8; 23]).unwrap_err(),
        ValidationError::InvalidDataSize { expected: 24, actual: 23 }
    );
}

#[test]
fn read_attribute_returns_its_bytes() {
    let vb = two_vertex_buffer();
    assert_eq!(vb.read_attribute(1, VertexAttributeUsage::Color).unwrap(), vec![28, 29, 30, 31]);
    assert_eq!(vb.read_attribute(0, VertexAttributeUsage::Position).unwrap(), (0u8..12).collect::<Vec<u8>>());
}

#[test]
fn read_errors_are_distinct() {
    let vb = two_vertex_buffer();
    assert_eq!(vb.read_attribute(2, VertexAttributeUsage::Color).unwrap_err(), VertexFetchError::IndexOutOfRange { index: 2, count: 2 });
    assert_eq!(vb.read_attribute(0, VertexAttributeUsage::Normal).unwrap_err(), VertexFetchError::NoSuchAttribute(VertexAttributeUsage::Normal));
    assert_eq!(
        vb.read_f32_bits(0, VertexAttributeUsage::Color, 4).unwrap_err(),
        VertexFetchError::TypeMismatch { required: VertexAttributeDataType::F32, found: VertexAttributeDataType::U8 }
    );
    assert_eq!(
        vb.read_f32_bits(0, VertexAttributeUsage::Position, 4).unwrap_err(),
        VertexFetchError::SizeMismatch { expected: 4, actual: 3 }
    );
}

#[test]
fn f32_bits_round_trip_through_the_buffer() {
    let mut vb = two_vertex_buffer();
    let bits = [1.0f32.to_bits(), (-2.5f32).to_bits(), 0.25f32.to_bits()];
    vb.write_f32_bits(1, VertexAttributeUsage::Position, &bits).unwrap();
    assert_eq!(vb.read_f32_bits(1, VertexAttributeUsage::Position, 3).unwrap(), bits.to_vec());
    // The other vertex and the other attribute are untouched.
    assert_eq!(vb.read_attribute(0, VertexAttributeUsage::Position).unwrap(), (0u8..12).collect::<Vec<u8>>());
    assert_eq!(vb.read_attribute(1, VertexAttributeUsage::Color).unwrap(), vec![28, 29, 30, 31]);
    assert_eq!(&vb.raw_data()[16..20], &1.0f32.to_le_bytes());
}

#[test]
fn write_with_wrong_size_changes_nothing() {
    let mut vb = two_vertex_buffer();
    let before = vb.raw_data().to_vec();
    assert_eq!(
        vb.write_attribute(0, VertexAttributeUsage::Color, &[1, 2, 3]).unwrap_err(),
        VertexFetchError::SizeMismatch { expected: 4, actual: 3 }
    );
    assert_eq!(
        vb.write_f32_bits(0, VertexAttributeUsage::Position, &[0, 0]).unwrap_err(),
        VertexFetchError::SizeMismatch { expected: 3, actual: 2 }
    );
    assert_eq!(vb.raw_data(), &before[..]);
}

#[test]
fn clear_keeps_layout() {
    let mut vb = two_vertex_buffer();
    vb.clear();
    assert_eq!(vb.vertex_count(), 0);
    assert!(vb.raw_data().is_empty());
    assert_eq!(vb.vertex_size(), 16);
    assert_eq!(vb.layout().len(), 2);
}

#[test]
fn triangle_bytes_are_little_endian() {
    let mut tb = TriangleBuffer::new(vec![TriangleDefinition([1, 2, 0x0304])]);
    tb.push(TriangleDefinition([5, 6, 7]));
    assert_eq!(tb.len(), 2);
    assert_eq!(tb.index_words(), vec![1, 2, 0x0304, 5, 6, 7]);
    let bytes = tb.raw_data();
    assert_eq!(bytes.len(), 24);
    assert_eq!(&bytes[0..12], &[1, 0, 0, 0, 2, 0, 0, 0, 4, 3, 0, 0]);
    tb.clear();
    assert!(tb.is_empty());
}
