//! A scene-description mesh loader: a restricted XML mesh format is parsed
//! into typed vertex-attribute and index streams, laid out into packed,
//! 16-byte-aligned byte buffers, and turned into replayable render commands.

pub mod events;
pub mod layout;
pub mod mesh;
pub mod nodetree;
pub mod text;
pub mod values;
pub mod vertex_attributes;
