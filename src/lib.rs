//! Mesh surface geometry: vertex and triangle buffers, procedural topology,
//! blend-shape packing, bone-weight sets and a persisted format for surfaces.
//!
//! Floating-point attribute values are held as their IEEE-754 bit patterns, so
//! every operation here works on integers and bytes.

pub mod blend;
pub mod buffer;
pub mod bytes;
pub mod hash;
pub mod persist;
pub mod primitives;
pub mod raw_mesh;
pub mod record;
pub mod shared;
pub mod surface;
pub mod variable;
pub mod weights;
