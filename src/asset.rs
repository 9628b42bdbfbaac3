use vstd::prelude::*;
use crate::resources::TextureFormat;

verus! {

/// An asset format version: the major number in the high 16 bits, the
/// minor number in the low 16 bits.
#[derive(Debug, Copy, Clone, PartialEq, Eq, PartialOrd, Ord, Hash, Structural)]
pub struct Version {
    pub version: u32,
}

impl Version {
    pub open spec fn major(self) -> nat {
        self.version as nat / 65536
    }

    pub open spec fn minor(self) -> nat {
        self.version as nat % 65536
    }

    pub fn new(major: u16, minor: u16) -> (v: Version)
        ensures
            v.version == major as nat * 65536 + minor as nat,
            v.major() == major,
            v.minor() == minor,
    {
        let version = ((major as u32) << 16u32) | (minor as u32);
        proof {
            let a = major as u32;
            let b = minor as u32;
            assert(((a << 16u32) | b) == a * 65536 + b) by (bit_vector)
                requires
                    a < 65536,
                    b < 65536,
            ;
        }
        Version { version }
    }

    /// Orders versions by major number, then by minor number.
    pub fn compare(&self, other: &Version) -> (r: std::cmp::Ordering)
        ensures
            r == if self.major() < other.major() || (self.major() == other.major() && self.minor() < other.minor()) {
                std::cmp::Ordering::Less
            } else if self.major() == other.major() && self.minor() == other.minor() {
                std::cmp::Ordering::Equal
            } else {
                std::cmp::Ordering::Greater
            },
    {
        let a = self.version;
        let b = other.version;
        let self_major = a >> 16u32;
        let other_major = b >> 16u32;
        let self_minor = a & 0xFFFFu32;
        let other_minor = b & 0xFFFFu32;
        proof {
            assert(a >> 16u32 == a / 65536 && a & 0xFFFFu32 == a % 65536) by (bit_vector);
            assert(b >> 16u32 == b / 65536 && b & 0xFFFFu32 == b % 65536) by (bit_vector);
        }
        if self_major < other_major {
            std::cmp::Ordering::Less
        } else if self_major > other_major {
            std::cmp::Ordering::Greater
        } else if self_minor < other_minor {
            std::cmp::Ordering::Less
        } else if self_minor > other_minor {
            std::cmp::Ordering::Greater
        } else {
            std::cmp::Ordering::Equal
        }
    }
}

/// The kind of a source asset, told by its file extension.
#[derive(Debug, Copy, Clone, PartialEq, Eq, Structural)]
pub enum AssetType {
    Mesh,
    Texture,
    Shader,
    Other,
}

/// `c` with an ASCII upper-case letter turned to lower case.
pub open spec fn ascii_lower_char(c: char) -> char {
    if 'A' <= c && c <= 'Z' {
        ((c as u8) + 32u8) as char
    } else {
        c
    }
}

pub open spec fn ascii_lower(s: Seq<char>) -> Seq<char> {
    s.map_values(|c: char| ascii_lower_char(c))
}

/// Relies on `str::to_ascii_lowercase`: ASCII letters `A` to `Z` become `a`
/// to `z`, every other character is kept.
#[verifier::external_body]
fn to_ascii_lowercase(s: &str) -> (r: String)
    ensures
        r@ == ascii_lower(s@),
{
    s.to_ascii_lowercase()
}

/// The asset kind of a lower-case extension.
pub open spec fn asset_type_of(e: Seq<char>) -> AssetType {
    if e == "png"@ || e == "jpg"@ || e == "jpeg"@ {
        AssetType::Texture
    } else if e == "fbx"@ || e == "obj"@ {
        AssetType::Mesh
    } else if e == "hlsl"@ {
        AssetType::Shader
    } else {
        AssetType::Other
    }
}

impl AssetType {
    /// The asset kind of a file extension, whatever the case of its letters.
    pub fn from_extension(extension: &str) -> (r: AssetType)
        ensures
            r == asset_type_of(ascii_lower(extension@)),
    {
        let e = to_ascii_lowercase(extension);
        if e == "png".to_owned() || e == "jpg".to_owned() || e == "jpeg".to_owned() {
            AssetType::Texture
        } else if e == "fbx".to_owned() || e == "obj".to_owned() {
            AssetType::Mesh
        } else if e == "hlsl".to_owned() {
            AssetType::Shader
        } else {
            AssetType::Other
        }
    }
}

/// Settings of a texture asset.
#[derive(Debug, Copy, Clone, PartialEq, Eq, Structural)]
pub struct TextureAsset {
    pub format: TextureFormat,
}

/// Settings that depend on the kind of asset.
#[derive(Debug, Copy, Clone, PartialEq, Eq, Structural)]
pub enum AdditionalAssetData {
    Mesh,
    Texture(TextureAsset),
    Shader,
    Other,
}

impl AdditionalAssetData {
    /// The default settings for a new asset of kind `t`: textures start as
    /// RGBA8.
    pub fn for_asset_type(t: AssetType) -> (r: AdditionalAssetData)
        ensures
            r == match t {
                AssetType::Mesh => AdditionalAssetData::Mesh,
                AssetType::Texture => AdditionalAssetData::Texture(TextureAsset { format: TextureFormat::RGBA8 }),
                AssetType::Shader => AdditionalAssetData::Shader,
                AssetType::Other => AdditionalAssetData::Other,
            },
    {
        match t {
            AssetType::Mesh => AdditionalAssetData::Mesh,
            AssetType::Texture => AdditionalAssetData::Texture(TextureAsset { format: TextureFormat::RGBA8 }),
            AssetType::Shader => AdditionalAssetData::Shader,
            AssetType::Other => AdditionalAssetData::Other,
        }
    }
}

/// Compiled shader code for the vertex and pixel stages.
#[derive(Debug)]
pub struct ShaderPackage {
    pub vs_ir: Option<Vec<u32>>,
    pub ps_ir: Option<Vec<u32>>,
}

/// The built form of an asset.
#[derive(Debug)]
pub enum Package {
    Shader(ShaderPackage),
    Text(String),
    Bin(Vec<u8>),
}

} // verus!
