use vstd::prelude::*;

verus! {

/// Pixel format of a texture or attachment.
#[derive(Debug, Copy, Clone, PartialEq, Eq, Hash, Structural)]
pub enum TextureFormat {
    RGB8,
    RGB16,
    RGBA8,
    RGBA16,
    SRGB8,
    SRGBA8,
    CubemapRGB8,
    CubemapRGB16,
    CubemapRGBA8,
    CubemapRGBA16,
    CubemapSRGB8,
    CubemapSRGBA8,
    Depth,
}

impl TextureFormat {
    /// Whether the format is one of the six-faced cubemap formats.
    pub open spec fn spec_is_cubemap(self) -> bool {
        match self {
            TextureFormat::CubemapRGB8 | TextureFormat::CubemapRGB16 | TextureFormat::CubemapRGBA8
            | TextureFormat::CubemapRGBA16 | TextureFormat::CubemapSRGB8
            | TextureFormat::CubemapSRGBA8 => true,
            _ => false,
        }
    }

    pub fn is_cubemap(&self) -> (r: bool)
        ensures
            r == self.spec_is_cubemap(),
    {
        (*self == TextureFormat::CubemapRGB8) || (*self == TextureFormat::CubemapRGB16) || (*self
            == TextureFormat::CubemapRGBA8) || (*self == TextureFormat::CubemapRGBA16) || (*self
            == TextureFormat::CubemapSRGB8) || (*self == TextureFormat::CubemapSRGBA8)
    }
}

/// Layout of an image in device memory.
#[derive(Debug, Copy, Clone, PartialEq, Eq, Hash, Structural)]
pub enum ImageLayout {
    Undefined,
    Preinitialized,
    General,
    ColorAttachmentOptimal,
    DepthStencilAttachmentOptimal,
    DepthStencilReadOnlyOptimal,
    ShaderReadOnlyOptimal,
    TransferSrcOptimal,
    TransferDstOptimal,
}

#[derive(Debug, Copy, Clone, PartialEq, Eq, Hash, Structural)]
pub enum FaceCullMode {
    Front,
    Back,
    FrontAndBack,
    NoCull,
}

#[derive(Debug, Copy, Clone, PartialEq, Eq, Hash, Structural)]
pub enum PolygonMode {
    Fill,
    Line,
    Point,
}

#[derive(Debug, Copy, Clone, PartialEq, Eq, Hash, Structural)]
pub enum DepthCompareOp {
    Never,
    Less,
    Equal,
    LessOrEqual,
    Greater,
    GreaterOrEqual,
    NotEqual,
    Always,
}

#[derive(Debug, Copy, Clone, PartialEq, Eq, Hash, Structural)]
pub enum VertexAttributeFormat {
    F32,
    F32Vec2,
    F32Vec3,
    F32Vec4,
}

/// One vertex attribute: shader location, format and byte offset in a vertex.
#[derive(Debug, Copy, Clone, PartialEq, Eq, Hash, Structural)]
pub struct VertexAttributeDescriptionBinding {
    pub location: u32,
    pub format: VertexAttributeFormat,
    pub offset: u32,
}

/// Vertex layout a raster pipeline consumes.
#[derive(Debug, Clone)]
pub struct VertexInputInfo {
    pub bindings: Vec<VertexAttributeDescriptionBinding>,
    pub stride: u32,
}

#[derive(Debug, Copy, Clone, PartialEq, Eq, Hash, Structural)]
pub enum LoadOp {
    Load,
    Clear,
    DontCare,
}

#[derive(Debug, Copy, Clone, PartialEq, Eq, Hash, Structural)]
pub enum StoreOp {
    Store,
    DontCare,
}

/// Usage bits of a texture.
pub type TextureUsage = u16;

pub const TEXTURE_USAGE_ATTACHMENT: TextureUsage = 0x1;
pub const TEXTURE_USAGE_SAMPLED: TextureUsage = 0x2;
pub const TEXTURE_USAGE_STORAGE: TextureUsage = 0x4;
pub const TEXTURE_USAGE_TRANSFER_SRC: TextureUsage = 0x8;
pub const TEXTURE_USAGE_TRANSFER_DST: TextureUsage = 0x10;

/// Usage bits of a buffer.
pub type BufferUsage = u16;

pub const BUFFER_USAGE_TRANSFER_SRC: BufferUsage = 0x1;
pub const BUFFER_USAGE_TRANSFER_DST: BufferUsage = 0x2;
pub const BUFFER_USAGE_UNIFORM_TEXEL_BUFFER: BufferUsage = 0x4;
pub const BUFFER_USAGE_STORAGE_TEXEL_BUFFER: BufferUsage = 0x8;
pub const BUFFER_USAGE_UNIFORM_BUFFER: BufferUsage = 0x10;
pub const BUFFER_USAGE_STORAGE_BUFFER: BufferUsage = 0x20;
pub const BUFFER_USAGE_INDEX_BUFFER: BufferUsage = 0x40;
pub const BUFFER_USAGE_VERTEX_BUFFER: BufferUsage = 0x80;

/// Where the memory of a buffer lives.
#[derive(Debug, Copy, Clone, PartialEq, Eq, Hash, Structural)]
pub enum MemoryLocation {
    Unknown,
    GpuOnly,
    CpuToGpu,
    GpuToCpu,
}

/// Pipeline stage bits, with the device API's bit values.
pub type PipelineStageFlags = u32;

pub const STAGE_NONE: PipelineStageFlags = 0;
pub const STAGE_VERTEX_SHADER: PipelineStageFlags = 0x8;
pub const STAGE_FRAGMENT_SHADER: PipelineStageFlags = 0x80;
pub const STAGE_LATE_FRAGMENT_TESTS: PipelineStageFlags = 0x200;
pub const STAGE_COLOR_ATTACHMENT_OUTPUT: PipelineStageFlags = 0x400;
pub const STAGE_COMPUTE_SHADER: PipelineStageFlags = 0x800;
/// The vertex, fragment and compute shader stages together.
pub const STAGE_ALL_SHADERS: PipelineStageFlags = 0x888;

/// Memory access bits, with the device API's bit values.
pub type AccessFlags = u32;

pub const ACCESS_NONE: AccessFlags = 0;
pub const ACCESS_SHADER_READ: AccessFlags = 0x20;
pub const ACCESS_SHADER_WRITE: AccessFlags = 0x40;
pub const ACCESS_SHADER_READ_WRITE: AccessFlags = 0x60;
pub const ACCESS_COLOR_ATTACHMENT_WRITE: AccessFlags = 0x100;
pub const ACCESS_DEPTH_STENCIL_ATTACHMENT_WRITE: AccessFlags = 0x400;

/// How one attachment of a render pass is loaded, stored and transitioned.
#[derive(Debug, Copy, Clone, PartialEq, Eq, Hash, Structural)]
pub struct AttachmentDescription {
    pub format: TextureFormat,
    pub usage: TextureUsage,
    pub load_op: LoadOp,
    pub store_op: StoreOp,
    pub initial_layout: ImageLayout,
    pub final_layout: ImageLayout,
}

/// Kind of one binding of a descriptor set layout.
#[derive(Debug, Copy, Clone, PartialEq, Eq, Hash, Structural)]
pub enum DescriptorBindingType {
    Texture2D,
    RWTexture2D,
    Buffer,
    RWBuffer,
    SamplerState,
    CBuffer,
    StructuredBuffer,
    RWStructuredBuffer,
}

/// The value an attachment is cleared to when a render pass begins.
/// Floating-point components are held as their IEEE-754 bit patterns.
#[derive(Debug, Copy, Clone, PartialEq, Eq, Hash, Structural)]
pub enum ClearValue {
    Color { r: u32, g: u32, b: u32, a: u32 },
    DepthStencil { depth: u32, stencil: u32 },
}

} // verus!
