use vstd::prelude::*;

use crate::bcn_image::ColorType;

verus! {

/// Why the decoding of one file failed.
#[derive(Debug, Clone, Copy, PartialEq, Eq, Structural)]
pub enum DecodeError {
    /// A read needed more bytes than remain after the given offset.
    UnexpectedEnd { offset: u64 },
    /// A relative seek would move before the start or past the largest offset.
    SeekOutOfRange { offset: u64 },
    /// The leading four-byte tag is not a versioned container.
    UnsupportedFormat { magic: u32 },
    /// The mesh file declares a version that is not decoded.
    UnsupportedVersion { version: u8 },
    /// A fixed-size string was not valid UTF-8.
    InvalidText,
    /// A vertex layout entry with an unknown `(type, layer)` pair.
    UnknownVertexLayout { kind: u64, layer: u64 },
    /// A vertex channel declared a numeric format that has no decoder.
    UnknownEncoding { channel: Channel, code: u64 },
    /// The global vertex flag word is not one of the known values.
    UnknownMeshFlags { flags: u32 },
    /// More than two face buffers were declared.
    TooManyFaceBuffers { count: u32 },
    /// A UV clamp record names a layer beyond the six that exist.
    UvLayerOutOfRange { layer: u32 },
    /// A reference (material group, bone slot, joint) could not be resolved.
    UnresolvedReference { value: u64 },
    /// The texture format code has no decoder.
    UnknownTextureFormat { code: u32 },
    /// Texture dimensions are not multiples of four.
    BadDimensions { width: u32, height: u32 },
    /// The texture declares no mip levels.
    NoMipLevels,
    /// The pixel data does not fill the declared image.
    ShortImageData,
    /// A picture conversion does not take pixels of this layout.
    UnsupportedColor { color: ColorType },
}

/// The vertex channels whose numeric format is dispatched on.
#[derive(Debug, Clone, Copy, PartialEq, Eq, Structural)]
pub enum Channel {
    Position,
    Weights,
    Bones,
    Normals,
    Tangents,
    Binormals,
    Colors,
    Colors2,
    Uv,
}

} // verus!
