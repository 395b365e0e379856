//! Decoding of binary mesh, texture and skeleton asset files into plain
//! in-memory values: a little-endian cursor, the shared container envelope,
//! material and texture-usage records, vertex layouts and channels, polygon
//! groups, block-compressed textures and skeletons.

pub mod bcn_image;
pub mod byte_reading;
pub mod checksum_mapping;
pub mod cursor;
pub mod d3dmesh;
pub mod d3dtx;
pub mod error;
pub mod export;
pub mod image_conversion;
pub mod materials;
pub mod mesh;
pub mod polygons;
pub mod skeleton;
pub mod textures;
