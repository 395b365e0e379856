//! Texture usage records of a material.
use vstd::prelude::*;

use crate::checksum_mapping::ChecksumMap;
use crate::cursor::{fits, le_u64, Cursor};
use crate::error::DecodeError;

verus! {

/// What a texture is used for.
#[derive(Debug, Clone, Copy, PartialEq, Eq, PartialOrd, Ord, Structural)]
pub enum TextureType {
    Anisotropy,
    AnisotropyMask,
    AnisotropyTangent,
    Bump,
    ColorMask,
    DamageMask,
    DecalDiffuse,
    DecalMask,
    DecalNormal,
    Detail,
    DetailGloss,
    DetailMask,
    DetailNormal,
    PackedDetail,
    Diffuse,
    DiffuseLOD,
    Emission,
    Environment,
    Flow,
    Gloss,
    Gradient,
    Grime,
    Height,
    Ink,
    MicrodetailDiffuse,
    MicrodetailNormal,
    Normal,
    NormalAlternate,
    Occlusion,
    RainFall,
    RainWet,
    Specular,
    Tangent,
    Thickness,
    TransitionNormal,
    VisibilityMask,
    WrinkleMask,
    WrinkleNormal,
    Unknown,
}

/// Which of a material's maps of one kind a texture fills.
#[derive(Debug, Clone, Copy, PartialEq, Eq, PartialOrd, Ord, Structural)]
pub enum TextureMap {
    MapBase,
    MapA,
    MapB,
    MapC,
    Unknown,
}

/// The usage that the 64-bit usage hash `hash` names.
#[verifier::opaque]
pub open spec fn usage_of(hash: u64) -> (TextureType, TextureMap) {
    if hash == 0x9836970882a34f02 {
        (TextureType::Anisotropy, TextureMap::MapBase)
    } else if hash == 0x714d23445936b35d {
        (TextureType::AnisotropyMask, TextureMap::MapBase)
    } else if hash == 0x7501e041ac72a988 {
        (TextureType::AnisotropyTangent, TextureMap::MapBase)
    } else if hash == 0xb8b04ddf1796f446 {
        (TextureType::Bump, TextureMap::MapBase)
    } else if hash == 0x72507eea6ef21aee {
        (TextureType::ColorMask, TextureMap::MapBase)
    } else if hash == 0x2b6c47845f607734 {
        (TextureType::DamageMask, TextureMap::MapA)
    } else if hash == 0xec7d65b8a55e2c81 {
        (TextureType::DamageMask, TextureMap::MapB)
    } else if hash == 0x36170f97445b6e2e {
        (TextureType::DecalDiffuse, TextureMap::MapBase)
    } else if hash == 0xa1f1257a331854c4 {
        (TextureType::DecalMask, TextureMap::MapBase)
    } else if hash == 0x9cf676c6403c9784 {
        (TextureType::DecalNormal, TextureMap::MapBase)
    } else if hash == 0x4930b970a7fd511f {
        (TextureType::Detail, TextureMap::MapBase)
    } else if hash == 0xdf7e412256e87e74 {
        (TextureType::Detail, TextureMap::MapB)
    } else if hash == 0xcb433436edca9efb {
        (TextureType::DetailGloss, TextureMap::MapBase)
    } else if hash == 0xbf468ef480aeeb89 {
        (TextureType::DetailMask, TextureMap::MapBase)
    } else if hash == 0x963ee638083014f1 {
        (TextureType::DetailNormal, TextureMap::MapBase)
    } else if hash == 0x706cf2aa57a7a206 {
        (TextureType::DetailNormal, TextureMap::MapBase)
    } else if hash == 0xd49d30f64a580c6f {
        (TextureType::DetailNormal, TextureMap::MapA)
    } else if hash == 0x138c12cab06657da {
        (TextureType::DetailNormal, TextureMap::MapB)
    } else if hash == 0x517cf321198c6149 {
        (TextureType::DetailNormal, TextureMap::MapC)
    } else if hash == 0xbdcd25f20f4199e3 {
        (TextureType::PackedDetail, TextureMap::MapBase)
    } else if hash == 0x8648fa82d1dbee1a {
        (TextureType::Diffuse, TextureMap::MapBase)
    } else if hash == 0x94a590de74b1f5c1 {
        (TextureType::Diffuse, TextureMap::MapB)
    } else if hash == 0xdc6e83a0253f163a {
        (TextureType::DiffuseLOD, TextureMap::MapBase)
    } else if hash == 0xb3022ea7fd418b40 {
        (TextureType::Emission, TextureMap::MapBase)
    } else if hash == 0xbdb4c92a546fb889 {
        (TextureType::Emission, TextureMap::MapB)
    } else if hash == 0x13eee65865dfc90f {
        (TextureType::Environment, TextureMap::MapBase)
    } else if hash == 0x257c2a45683f7d2f {
        (TextureType::Environment, TextureMap::MapBase)
    } else if hash == 0x8cadb26098df1108 {
        (TextureType::Flow, TextureMap::MapBase)
    } else if hash == 0x64fba83e34dd3959 {
        (TextureType::Gloss, TextureMap::MapBase)
    } else if hash == 0x2642d6b4c8eccaa9 {
        (TextureType::Gradient, TextureMap::MapBase)
    } else if hash == 0xa334f76c317a0c02 {
        (TextureType::Gradient, TextureMap::MapBase)
    } else if hash == 0x2aa89260d8661f89 {
        (TextureType::Grime, TextureMap::MapBase)
    } else if hash == 0x66cd6e57fa58a246 {
        (TextureType::Height, TextureMap::MapBase)
    } else if hash == 0xff787a61eac8a5b5 {
        (TextureType::Ink, TextureMap::MapBase)
    } else if hash == 0x817afd5302445b8b {
        (TextureType::MicrodetailDiffuse, TextureMap::MapBase)
    } else if hash == 0xcb5b9a7f52168a41 {
        (TextureType::MicrodetailNormal, TextureMap::MapBase)
    } else if hash == 0x1e3f6b9f2550389d {
        (TextureType::Normal, TextureMap::MapBase)
    } else if hash == 0x3f380050afd9f81f {
        (TextureType::Normal, TextureMap::MapB)
    } else if hash == 0x436206e68a9e7cca {
        (TextureType::Normal, TextureMap::MapB)
    } else if hash == 0x7498a5f1b80ad419 {
        (TextureType::NormalAlternate, TextureMap::MapBase)
    } else if hash == 0xcaaae6432af348c0 {
        (TextureType::Occlusion, TextureMap::MapBase)
    } else if hash == 0x62c4957578189f07 {
        (TextureType::Occlusion, TextureMap::MapBase)
    } else if hash == 0x533f479d08bf0e5e {
        (TextureType::RainFall, TextureMap::MapBase)
    } else if hash == 0x2eba1f4bba7a1543 {
        (TextureType::RainWet, TextureMap::MapBase)
    } else if hash == 0xc8c94155fb7c634b {
        (TextureType::Specular, TextureMap::MapBase)
    } else if hash == 0xd5b57775db361670 {
        (TextureType::Specular, TextureMap::MapBase)
    } else if hash == 0x120621d5fad4c090 {
        (TextureType::Specular, TextureMap::MapB)
    } else if hash == 0x37571b60b1f61180 {
        (TextureType::Tangent, TextureMap::MapB)
    } else if hash == 0xa45200a222dc2d80 {
        (TextureType::Thickness, TextureMap::MapBase)
    } else if hash == 0x8cf38a5266aaa7a4 {
        (TextureType::TransitionNormal, TextureMap::MapBase)
    } else if hash == 0x87b579ec018fbd4d {
        (TextureType::VisibilityMask, TextureMap::MapBase)
    } else if hash == 0xd7ea35534dbc457d {
        (TextureType::WrinkleMask, TextureMap::MapA)
    } else if hash == 0x10fb176fb7821ec8 {
        (TextureType::WrinkleMask, TextureMap::MapB)
    } else if hash == 0xf340c5690ce9e059 {
        (TextureType::WrinkleNormal, TextureMap::MapBase)
    } else if hash == 0xa13d14fbb436f23b {
        (TextureType::WrinkleNormal, TextureMap::MapBase)
    } else {
        (TextureType::Unknown, TextureMap::Unknown)
    }
}

/// Looks up the usage that a usage hash names.
pub fn usage_of_hash(hash: u64) -> (r: (TextureType, TextureMap))
    ensures
        r == usage_of(hash),
{
    reveal(usage_of);
    match hash {
        0x9836970882a34f02 => (TextureType::Anisotropy, TextureMap::MapBase),
        0x714d23445936b35d => (TextureType::AnisotropyMask, TextureMap::MapBase),
        0x7501e041ac72a988 => (TextureType::AnisotropyTangent, TextureMap::MapBase),
        0xb8b04ddf1796f446 => (TextureType::Bump, TextureMap::MapBase),
        0x72507eea6ef21aee => (TextureType::ColorMask, TextureMap::MapBase),
        0x2b6c47845f607734 => (TextureType::DamageMask, TextureMap::MapA),
        0xec7d65b8a55e2c81 => (TextureType::DamageMask, TextureMap::MapB),
        0x36170f97445b6e2e => (TextureType::DecalDiffuse, TextureMap::MapBase),
        0xa1f1257a331854c4 => (TextureType::DecalMask, TextureMap::MapBase),
        0x9cf676c6403c9784 => (TextureType::DecalNormal, TextureMap::MapBase),
        0x4930b970a7fd511f => (TextureType::Detail, TextureMap::MapBase),
        0xdf7e412256e87e74 => (TextureType::Detail, TextureMap::MapB),
        0xcb433436edca9efb => (TextureType::DetailGloss, TextureMap::MapBase),
        0xbf468ef480aeeb89 => (TextureType::DetailMask, TextureMap::MapBase),
        0x963ee638083014f1 => (TextureType::DetailNormal, TextureMap::MapBase),
        0x706cf2aa57a7a206 => (TextureType::DetailNormal, TextureMap::MapBase),
        0xd49d30f64a580c6f => (TextureType::DetailNormal, TextureMap::MapA),
        0x138c12cab06657da => (TextureType::DetailNormal, TextureMap::MapB),
        0x517cf321198c6149 => (TextureType::DetailNormal, TextureMap::MapC),
        0xbdcd25f20f4199e3 => (TextureType::PackedDetail, TextureMap::MapBase),
        0x8648fa82d1dbee1a => (TextureType::Diffuse, TextureMap::MapBase),
        0x94a590de74b1f5c1 => (TextureType::Diffuse, TextureMap::MapB),
        0xdc6e83a0253f163a => (TextureType::DiffuseLOD, TextureMap::MapBase),
        0xb3022ea7fd418b40 => (TextureType::Emission, TextureMap::MapBase),
        0xbdb4c92a546fb889 => (TextureType::Emission, TextureMap::MapB),
        0x13eee65865dfc90f => (TextureType::Environment, TextureMap::MapBase),
        0x257c2a45683f7d2f => (TextureType::Environment, TextureMap::MapBase),
        0x8cadb26098df1108 => (TextureType::Flow, TextureMap::MapBase),
        0x64fba83e34dd3959 => (TextureType::Gloss, TextureMap::MapBase),
        0x2642d6b4c8eccaa9 => (TextureType::Gradient, TextureMap::MapBase),
        0xa334f76c317a0c02 => (TextureType::Gradient, TextureMap::MapBase),
        0x2aa89260d8661f89 => (TextureType::Grime, TextureMap::MapBase),
        0x66cd6e57fa58a246 => (TextureType::Height, TextureMap::MapBase),
        0xff787a61eac8a5b5 => (TextureType::Ink, TextureMap::MapBase),
        0x817afd5302445b8b => (TextureType::MicrodetailDiffuse, TextureMap::MapBase),
        0xcb5b9a7f52168a41 => (TextureType::MicrodetailNormal, TextureMap::MapBase),
        0x1e3f6b9f2550389d => (TextureType::Normal, TextureMap::MapBase),
        0x3f380050afd9f81f => (TextureType::Normal, TextureMap::MapB),
        0x436206e68a9e7cca => (TextureType::Normal, TextureMap::MapB),
        0x7498a5f1b80ad419 => (TextureType::NormalAlternate, TextureMap::MapBase),
        0xcaaae6432af348c0 => (TextureType::Occlusion, TextureMap::MapBase),
        0x62c4957578189f07 => (TextureType::Occlusion, TextureMap::MapBase),
        0x533f479d08bf0e5e => (TextureType::RainFall, TextureMap::MapBase),
        0x2eba1f4bba7a1543 => (TextureType::RainWet, TextureMap::MapBase),
        0xc8c94155fb7c634b => (TextureType::Specular, TextureMap::MapBase),
        0xd5b57775db361670 => (TextureType::Specular, TextureMap::MapBase),
        0x120621d5fad4c090 => (TextureType::Specular, TextureMap::MapB),
        0x37571b60b1f61180 => (TextureType::Tangent, TextureMap::MapB),
        0xa45200a222dc2d80 => (TextureType::Thickness, TextureMap::MapBase),
        0x8cf38a5266aaa7a4 => (TextureType::TransitionNormal, TextureMap::MapBase),
        0x87b579ec018fbd4d => (TextureType::VisibilityMask, TextureMap::MapBase),
        0xd7ea35534dbc457d => (TextureType::WrinkleMask, TextureMap::MapA),
        0x10fb176fb7821ec8 => (TextureType::WrinkleMask, TextureMap::MapB),
        0xf340c5690ce9e059 => (TextureType::WrinkleNormal, TextureMap::MapBase),
        0xa13d14fbb436f23b => (TextureType::WrinkleNormal, TextureMap::MapBase),
        _ => (TextureType::Unknown, TextureMap::Unknown),
    }
}

/// One texture that a material uses.
#[derive(Debug, Clone)]
pub struct Texture {
    pub kind: TextureType,
    pub map: TextureMap,
    pub name: String,
    /// The content hash, where it is not zero and the name table does not
    /// know it (worth a warning).
    pub unresolved: Option<u64>,
}

/// Whether `t` is the record for usage hash `usage` and content hash
/// `content`: a zero content hash means the texture is intentionally absent,
/// and it, like a content hash that the table does not know, gives an
/// unnamed record of unknown usage.
pub open spec fn is_texture_record(
    t: Texture,
    usage: u64,
    content: u64,
    names: Map<u64, Seq<char>>,
) -> bool {
    &&& t.unresolved == if content != 0 && !names.contains_key(content) {
        Some(content)
    } else {
        None
    }
    &&& if content != 0 && names.contains_key(content) {
        &&& t.kind == usage_of(usage).0
        &&& t.map == usage_of(usage).1
        &&& t.name@ == names[content]
    } else {
        &&& t.kind == TextureType::Unknown
        &&& t.map == TextureMap::Unknown
        &&& t.name@ == Seq::<char>::empty()
    }
}

/// The record of a texture that is absent or has no known name.
pub open spec fn is_unknown_record(t: Texture) -> bool {
    &&& t.kind == TextureType::Unknown
    &&& t.map == TextureMap::Unknown
    &&& t.name@ == Seq::<char>::empty()
}

impl Texture {
    /// Reads a usage hash and a content hash, naming the texture through
    /// `texture_mapping`.
    pub fn parse(input: &mut Cursor, texture_mapping: &ChecksumMap) -> (r: Result<
        Texture,
        DecodeError,
    >)
        ensures
            final(input).bytes() == old(input).bytes(),
            ({
                let s = old(input).bytes();
                let p = old(input).pos() as int;
                &&& r is Ok <==> fits(s, p as u64, 16)
                &&& r is Ok ==> final(input).pos() == p + 16 && is_texture_record(
                    r->Ok_0,
                    le_u64(s, p),
                    le_u64(s, p + 8),
                    texture_mapping.view(),
                )
                &&& r is Ok && le_u64(s, p + 8) == 0 ==> is_unknown_record(r->Ok_0)
                    && r->Ok_0.unresolved is None
                &&& r is Err ==> r == Err::<Texture, DecodeError>(
                    DecodeError::UnexpectedEnd { offset: if fits(s, p as u64, 8) {
                        (p + 8) as u64
                    } else {
                        p as u64
                    } },
                )
            }),
    {
        let type_hash = input.read_u64()?;
        let (kind, map) = usage_of_hash(type_hash);
        let texture_hash = input.read_u64()?;
        if texture_hash == 0 {
            return Ok(
                Texture {
                    kind: TextureType::Unknown,
                    map: TextureMap::Unknown,
                    name: String::new(),
                    unresolved: None,
                },
            );
        }
        match texture_mapping.get_mapping(texture_hash) {
            Some(name) => Ok(Texture { kind, map, name, unresolved: None }),
            None => Ok(
                Texture {
                    kind: TextureType::Unknown,
                    map: TextureMap::Unknown,
                    name: String::new(),
                    unresolved: Some(texture_hash),
                },
            ),
        }
    }
}

} // verus!
