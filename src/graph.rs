use vstd::prelude::*;
use crate::resources::{
    AccessFlags, BufferUsage, ClearValue, DepthCompareOp, FaceCullMode, ImageLayout, LoadOp,
    MemoryLocation, PipelineStageFlags, PolygonMode, StoreOp, TextureFormat, TextureUsage,
    VertexInputInfo, ACCESS_SHADER_READ, STAGE_ALL_SHADERS,
};

verus! {

/// Identity of a shader module owned by the caller.
pub type ShaderModule = u64;

/// Identity of a descriptor set layout description; raster and compute
/// layouts, and the descriptor heaps behind them, are interned by it.
pub type DescriptorSetInfoId = u64;

/// A mesh owned by the caller: its vertex and index buffers and index count.
#[derive(Debug, Copy, Clone, PartialEq, Eq, Hash, Structural)]
pub struct Mesh {
    pub vertex_buffer: u64,
    pub index_buffer: u64,
    pub index_count: u32,
}

/// An object the caller owns and the graph only refers to, identified by the
/// raw device handles that make it up.
#[derive(Debug, Copy, Clone, PartialEq, Eq, Hash, Structural)]
pub enum GraphImportedResource {
    Shader { module: ShaderModule },
    Mesh(Mesh),
    Buffer { raw: u64, size: u64 },
    Texture { image: u64, sampler: u64, image_view: u64 },
}

#[derive(Debug, Copy, Clone, PartialEq, Eq, Hash, Structural)]
pub struct GraphImportedShaderHandle {
    pub id: usize,
}

#[derive(Debug, Copy, Clone, PartialEq, Eq, Hash, Structural)]
pub struct GraphImportedBufferHandle {
    pub id: usize,
}

#[derive(Debug, Copy, Clone, PartialEq, Eq, Hash, Structural)]
pub struct GraphImportedTextureHandle {
    pub id: usize,
}

#[derive(Debug, Copy, Clone, PartialEq, Eq, Hash, Structural)]
pub struct GraphImportedMeshHandle {
    pub id: usize,
}

#[derive(Debug, Copy, Clone, PartialEq, Eq, Hash, Structural)]
pub struct GraphRasterPipelineHandle {
    pub id: usize,
}

#[derive(Debug, Copy, Clone, PartialEq, Eq, Hash, Structural)]
pub struct GraphComputePipelineHandle {
    pub id: usize,
}

#[derive(Debug, Copy, Clone, PartialEq, Eq, Hash, Structural)]
pub enum GraphPipelineHandle {
    Raster(GraphRasterPipelineHandle),
    Compute(GraphComputePipelineHandle),
}

#[derive(Debug, Copy, Clone, PartialEq, Eq, Hash, Structural)]
pub struct GraphRenderPassHandle {
    pub id: usize,
}

#[derive(Debug, Copy, Clone, PartialEq, Eq, Hash, Structural)]
pub struct GraphDescriptorHandle {
    pub id: usize,
}

#[derive(Debug, Copy, Clone, PartialEq, Eq, Hash, Structural)]
pub struct PassHandle {
    pub id: usize,
}

/// Read access to an attachment: the source half of its barrier comes from
/// the last writer, the destination half is a shader read.
#[derive(Debug, Copy, Clone, PartialEq, Eq, Hash, Structural)]
pub struct GraphAttachmentHandle {
    pub id: usize,
    pub src_stage: PipelineStageFlags,
    pub dst_stage: PipelineStageFlags,
    pub src_access: AccessFlags,
    pub dst_access: AccessFlags,
    pub initial_layout: ImageLayout,
    pub final_layout: ImageLayout,
}

/// Write access to an attachment, with the state its last writer left it in.
#[derive(Debug, Copy, Clone, PartialEq, Eq, Hash, Structural)]
pub struct MutableGraphAttachmentHandle {
    pub id: usize,
    pub layout: ImageLayout,
    pub stage: PipelineStageFlags,
    pub access: AccessFlags,
}

impl MutableGraphAttachmentHandle {
    pub open spec fn spec_read(self) -> GraphAttachmentHandle {
        GraphAttachmentHandle {
            id: self.id,
            src_stage: self.stage,
            src_access: self.access,
            initial_layout: self.layout,
            dst_stage: STAGE_ALL_SHADERS,
            dst_access: ACCESS_SHADER_READ,
            final_layout: ImageLayout::ShaderReadOnlyOptimal,
        }
    }

    /// Downgrades to a read handle: the barrier goes from this writer's
    /// state to a shader read in `ShaderReadOnlyOptimal` layout.
    pub fn read(self) -> (r: GraphAttachmentHandle)
        ensures
            r == self.spec_read(),
    {
        GraphAttachmentHandle {
            id: self.id,
            src_stage: self.stage,
            src_access: self.access,
            initial_layout: self.layout,
            dst_stage: STAGE_ALL_SHADERS,
            dst_access: ACCESS_SHADER_READ,
            final_layout: ImageLayout::ShaderReadOnlyOptimal,
        }
    }
}

/// Read access to a buffer.
#[derive(Debug, Copy, Clone, PartialEq, Eq, Hash, Structural)]
pub struct GraphBufferHandle {
    pub id: usize,
    pub src_stage: PipelineStageFlags,
    pub dst_stage: PipelineStageFlags,
    pub src_access: AccessFlags,
    pub dst_access: AccessFlags,
}

/// Write access to a buffer.
#[derive(Debug, Copy, Clone, PartialEq, Eq, Hash, Structural)]
pub struct MutableGraphBufferHandle {
    pub id: usize,
    pub stage: PipelineStageFlags,
    pub access: AccessFlags,
}

impl MutableGraphBufferHandle {
    pub open spec fn spec_read(self) -> GraphBufferHandle {
        GraphBufferHandle {
            id: self.id,
            src_stage: self.stage,
            src_access: self.access,
            dst_stage: STAGE_ALL_SHADERS,
            dst_access: ACCESS_SHADER_READ,
        }
    }

    /// Downgrades to a read handle whose barrier ends in a shader read.
    pub fn read(self) -> (r: GraphBufferHandle)
        ensures
            r == self.spec_read(),
    {
        GraphBufferHandle {
            id: self.id,
            src_stage: self.stage,
            src_access: self.access,
            dst_stage: STAGE_ALL_SHADERS,
            dst_access: ACCESS_SHADER_READ,
        }
    }
}

/// One binding of a descriptor set as the graph records it.
#[derive(Debug, Copy, Clone, PartialEq, Eq, Hash, Structural)]
pub enum GraphOwnedResourceDescriptorBinding {
    ImportedBuffer(GraphImportedBufferHandle),
    ImportedTexture(GraphImportedTextureHandle),
    Buffer(GraphBufferHandle),
    MutableBuffer(MutableGraphBufferHandle),
    Attachment(GraphAttachmentHandle),
}

/// Fixed-function and shader state of a raster pipeline.
#[derive(Debug)]
pub struct RasterPipelineResource {
    pub vs: GraphImportedShaderHandle,
    pub ps: Option<GraphImportedShaderHandle>,
    pub descriptor_layouts: Vec<DescriptorSetInfoId>,
    pub render_pass: GraphRenderPassHandle,
    pub depth_compare_op: Option<DepthCompareOp>,
    pub depth_write: bool,
    pub face_cull: FaceCullMode,
    pub push_constant_bytes: usize,
    pub vertex_input_info: VertexInputInfo,
    pub polygon_mode: PolygonMode,
}

/// A virtual resource, created inside one pass and owned by the graph.
#[derive(Debug)]
pub enum GraphOwnedResource {
    RasterPipeline(RasterPipelineResource),
    ComputePipeline {
        cs: GraphImportedShaderHandle,
        descriptor_layouts: Vec<DescriptorSetInfoId>,
    },
    RenderPass {
        color_attachments: Vec<MutableGraphAttachmentHandle>,
        depth_attachment: Option<MutableGraphAttachmentHandle>,
    },
    OutputRenderPass,
    Attachment {
        width: u32,
        height: u32,
        format: TextureFormat,
        usage: TextureUsage,
        load_op: LoadOp,
        store_op: StoreOp,
    },
    Buffer { size: usize, usage: BufferUsage, location: MemoryLocation },
    DescriptorSet {
        descriptor_layout: DescriptorSetInfoId,
        bindings: Vec<(u32, GraphOwnedResourceDescriptorBinding)>,
    },
}

/// A command recorded into a pass, replayed when the graph executes. The
/// clear values of a render pass are kept in the graph's `clear_values`
/// table, at the index the command holds.
#[derive(Debug, Copy, Clone, PartialEq, Eq, Structural)]
pub enum PassCmd {
    BeginRenderPass { render_pass: GraphRenderPassHandle, clear_values: usize },
    EndRenderPass,
    BindRasterPipeline { pipeline: GraphRasterPipelineHandle },
    BindComputePipeline { pipeline: GraphComputePipelineHandle },
    BindDescriptor { set: u32, descriptor: GraphDescriptorHandle, pipeline: GraphPipelineHandle },
    DrawMesh { mesh: GraphImportedMeshHandle },
    Draw { vertex_count: u32, instance_count: u32, first_vertex: u32, first_instance: u32 },
    Dispatch { group_count_x: u32, group_count_y: u32, group_count_z: u32 },
}

/// A finished pass: its commands and the resources it reads and writes.
/// Each of the four access lists holds no handle twice.
#[derive(Debug)]
pub struct RecordedPass {
    pub name: &'static str,
    pub pass: PassHandle,
    pub cmds: Vec<PassCmd>,
    pub read_attachments: Vec<GraphAttachmentHandle>,
    pub write_attachments: Vec<MutableGraphAttachmentHandle>,
    pub read_buffers: Vec<GraphBufferHandle>,
    pub write_buffers: Vec<MutableGraphBufferHandle>,
}

/// The passes of one frame and the resources they create and import.
/// `resource_to_owning_pass[i]` is the pass that created `owned_resources[i]`.
#[derive(Debug)]
pub struct RenderGraph {
    pub passes: Vec<RecordedPass>,
    pub owned_resources: Vec<GraphOwnedResource>,
    pub resource_to_owning_pass: Vec<PassHandle>,
    pub imported_resources: Vec<GraphImportedResource>,
    pub clear_values: Vec<Vec<ClearValue>>,
}

} // verus!
