use vstd::prelude::*;
use crate::resources::{
    BufferUsage, ClearValue, DepthCompareOp, FaceCullMode, ImageLayout, LoadOp, MemoryLocation,
    PolygonMode, StoreOp, TextureFormat, TextureUsage, VertexInputInfo, ACCESS_COLOR_ATTACHMENT_WRITE,
    ACCESS_DEPTH_STENCIL_ATTACHMENT_WRITE, ACCESS_NONE, ACCESS_SHADER_READ_WRITE,
    STAGE_ALL_SHADERS, STAGE_COLOR_ATTACHMENT_OUTPUT, STAGE_LATE_FRAGMENT_TESTS, STAGE_NONE,
};
use crate::graph::{
    DescriptorSetInfoId, GraphAttachmentHandle, GraphBufferHandle, GraphComputePipelineHandle,
    GraphDescriptorHandle, GraphImportedMeshHandle, GraphImportedResource,
    GraphImportedShaderHandle, GraphImportedBufferHandle, GraphImportedTextureHandle,
    GraphOwnedResource, GraphOwnedResourceDescriptorBinding, GraphPipelineHandle,
    GraphRasterPipelineHandle, GraphRenderPassHandle, Mesh, MutableGraphAttachmentHandle,
    MutableGraphBufferHandle, PassCmd, PassHandle, RasterPipelineResource, RecordedPass,
    RenderGraph, ShaderModule,
};

verus! {

/// Shape of an attachment to create.
#[derive(Debug, Copy, Clone)]
pub struct AttachmentDesc {
    pub name: &'static str,
    pub width: u32,
    pub height: u32,
    pub format: TextureFormat,
    pub load_op: LoadOp,
    pub store_op: StoreOp,
    pub usage: TextureUsage,
}

/// Shape of a buffer to create.
#[derive(Debug, Copy, Clone)]
pub struct BufferDesc {
    pub name: &'static str,
    pub size: usize,
    pub usage: BufferUsage,
    pub location: MemoryLocation,
}

/// The attachments a render pass writes. Adding the render pass updates the
/// handles in place to the state the render pass leaves them in.
#[derive(Debug)]
pub struct RenderPassDesc {
    pub name: &'static str,
    pub color_attachments: Vec<MutableGraphAttachmentHandle>,
    pub depth_attachment: Option<MutableGraphAttachmentHandle>,
}

/// A raster pipeline over caller-owned shader modules.
#[derive(Debug)]
pub struct RasterPipelineDesc {
    pub name: &'static str,
    pub vs: ShaderModule,
    pub ps: Option<ShaderModule>,
    pub descriptor_layouts: Vec<DescriptorSetInfoId>,
    pub render_pass: GraphRenderPassHandle,
    pub depth_compare_op: Option<DepthCompareOp>,
    pub depth_write: bool,
    pub face_cull: FaceCullMode,
    pub push_constant_bytes: usize,
    pub vertex_input_info: VertexInputInfo,
    pub polygon_mode: PolygonMode,
}

/// A compute pipeline over a caller-owned shader module.
#[derive(Debug)]
pub struct ComputePipelineDesc {
    pub name: &'static str,
    pub cs: ShaderModule,
    pub descriptor_layouts: Vec<DescriptorSetInfoId>,
}

/// What one binding of a descriptor set refers to.
#[derive(Debug, Copy, Clone, PartialEq, Eq, Structural)]
pub enum DescriptorBindingDesc {
    ImportedBuffer { raw: u64, size: u64 },
    ImportedTexture { image: u64, sampler: u64, image_view: u64 },
    Buffer(GraphBufferHandle),
    MutableBuffer(MutableGraphBufferHandle),
    Attachment(GraphAttachmentHandle),
}

/// A descriptor set: its layout and its bindings. Adding it updates the
/// mutable buffer handles in place to the shader read/write state.
#[derive(Debug)]
pub struct DescriptorDesc {
    pub name: &'static str,
    pub descriptor_layout: DescriptorSetInfoId,
    pub bindings: Vec<(u32, DescriptorBindingDesc)>,
}

/// `s` with `x` added unless it already holds it.
pub open spec fn set_insert<T>(s: Seq<T>, x: T) -> Seq<T> {
    if s.contains(x) {
        s
    } else {
        s.push(x)
    }
}

/// `s` with each of `xs` added in turn unless already present.
pub open spec fn set_insert_all<T>(s: Seq<T>, xs: Seq<T>) -> Seq<T>
    decreases xs.len(),
{
    if xs.len() == 0 {
        s
    } else {
        set_insert(set_insert_all(s, xs.drop_last()), xs.last())
    }
}

/// The first position of `x` in `s`, where `s` holds it.
pub open spec fn first_index<T>(s: Seq<T>, x: T) -> int {
    choose|i: int| 0 <= i < s.len() && s[i] == x && forall|j: int| 0 <= j < i ==> s[j] != x
}

/// `r` is a render pass over exactly these attachments.
pub open spec fn is_render_pass_over(
    r: GraphOwnedResource,
    colors: Seq<MutableGraphAttachmentHandle>,
    depth: Option<MutableGraphAttachmentHandle>,
) -> bool {
    match r {
        GraphOwnedResource::RenderPass { color_attachments, depth_attachment } => {
            color_attachments@ == colors && depth_attachment == depth
        },
        _ => false,
    }
}

/// `r` is a descriptor set of layout `layout` with exactly these bindings.
pub open spec fn is_descriptor_set_over(
    r: GraphOwnedResource,
    layout: DescriptorSetInfoId,
    bindings: Seq<(u32, GraphOwnedResourceDescriptorBinding)>,
) -> bool {
    match r {
        GraphOwnedResource::DescriptorSet { descriptor_layout, bindings: b } => {
            descriptor_layout == layout && b@ == bindings
        },
        _ => false,
    }
}

/// The handle state a render pass leaves a color attachment in.
pub open spec fn as_color_target(h: MutableGraphAttachmentHandle) -> MutableGraphAttachmentHandle {
    MutableGraphAttachmentHandle {
        id: h.id,
        layout: ImageLayout::ColorAttachmentOptimal,
        stage: STAGE_COLOR_ATTACHMENT_OUTPUT,
        access: ACCESS_COLOR_ATTACHMENT_WRITE,
    }
}

/// The handle state a render pass leaves a depth attachment in.
pub open spec fn as_depth_target(h: MutableGraphAttachmentHandle) -> MutableGraphAttachmentHandle {
    MutableGraphAttachmentHandle {
        id: h.id,
        layout: ImageLayout::DepthStencilAttachmentOptimal,
        stage: STAGE_LATE_FRAGMENT_TESTS,
        access: ACCESS_DEPTH_STENCIL_ATTACHMENT_WRITE,
    }
}

/// The handle state a descriptor set leaves a buffer it writes in.
pub open spec fn as_storage_target(h: MutableGraphBufferHandle) -> MutableGraphBufferHandle {
    MutableGraphBufferHandle { id: h.id, stage: STAGE_ALL_SHADERS, access: ACCESS_SHADER_READ_WRITE }
}

/// A binding after the descriptor set took it.
pub open spec fn updated_binding(b: DescriptorBindingDesc) -> DescriptorBindingDesc {
    match b {
        DescriptorBindingDesc::MutableBuffer(h) => DescriptorBindingDesc::MutableBuffer(
            as_storage_target(h),
        ),
        _ => b,
    }
}

/// What the graph and the pass hold while a descriptor set's bindings are
/// taken one by one.
pub struct BindState {
    pub imported: Seq<GraphImportedResource>,
    pub read_attachments: Seq<GraphAttachmentHandle>,
    pub read_buffers: Seq<GraphBufferHandle>,
    pub write_buffers: Seq<MutableGraphBufferHandle>,
    pub bindings: Seq<(u32, GraphOwnedResourceDescriptorBinding)>,
}

/// Takes one binding: imports what it refers to, or registers the read or
/// write it declares, and records it.
pub open spec fn bind_step(st: BindState, b: (u32, DescriptorBindingDesc)) -> BindState {
    match b.1 {
        DescriptorBindingDesc::ImportedBuffer { raw, size } => {
            let imported = set_insert(st.imported, GraphImportedResource::Buffer { raw, size });
            let h = GraphImportedBufferHandle {
                id: first_index(imported, GraphImportedResource::Buffer { raw, size }) as usize,
            };
            BindState {
                imported,
                bindings: st.bindings.push((b.0, GraphOwnedResourceDescriptorBinding::ImportedBuffer(h))),
                ..st
            }
        },
        DescriptorBindingDesc::ImportedTexture { image, sampler, image_view } => {
            let r = GraphImportedResource::Texture { image, sampler, image_view };
            let imported = set_insert(st.imported, r);
            let h = GraphImportedTextureHandle { id: first_index(imported, r) as usize };
            BindState {
                imported,
                bindings: st.bindings.push((b.0, GraphOwnedResourceDescriptorBinding::ImportedTexture(h))),
                ..st
            }
        },
        DescriptorBindingDesc::Buffer(h) => BindState {
            read_buffers: set_insert(st.read_buffers, h),
            bindings: st.bindings.push((b.0, GraphOwnedResourceDescriptorBinding::Buffer(h))),
            ..st
        },
        DescriptorBindingDesc::MutableBuffer(h) => BindState {
            write_buffers: set_insert(st.write_buffers, as_storage_target(h)),
            bindings: st.bindings.push(
                (b.0, GraphOwnedResourceDescriptorBinding::MutableBuffer(as_storage_target(h))),
            ),
            ..st
        },
        DescriptorBindingDesc::Attachment(h) => BindState {
            read_attachments: set_insert(st.read_attachments, h),
            bindings: st.bindings.push((b.0, GraphOwnedResourceDescriptorBinding::Attachment(h))),
            ..st
        },
    }
}

/// Takes the bindings `bs` in order.
pub open spec fn bind_all(st: BindState, bs: Seq<(u32, DescriptorBindingDesc)>) -> BindState
    decreases bs.len(),
{
    if bs.len() == 0 {
        st
    } else {
        bind_step(bind_all(st, bs.drop_last()), bs.last())
    }
}

impl RenderGraph {
    /// An empty graph.
    pub fn new() -> (r: RenderGraph)
        ensures
            r.passes@.len() == 0,
            r.owned_resources@.len() == 0,
            r.resource_to_owning_pass@.len() == 0,
            r.imported_resources@.len() == 0,
            r.clear_values@.len() == 0,
    {
        RenderGraph {
            passes: Vec::new(),
            owned_resources: Vec::new(),
            resource_to_owning_pass: Vec::new(),
            imported_resources: Vec::new(),
            clear_values: Vec::new(),
        }
    }

    /// Starts recording a pass. The graph is held by the builder until
    /// `PassBuilder::finish` appends the pass and hands the graph back.
    pub fn add_pass(self, name: &'static str) -> (b: PassBuilder)
        ensures
            b.graph == self,
            b.pass == (PassHandle { id: self.passes@.len() as usize }),
            b.recorded.name == name,
            b.recorded.pass == b.pass,
            b.recorded.cmds@.len() == 0,
            b.recorded.read_attachments@.len() == 0,
            b.recorded.write_attachments@.len() == 0,
            b.recorded.read_buffers@.len() == 0,
            b.recorded.write_buffers@.len() == 0,
    {
        let pass = PassHandle { id: self.passes.len() };
        let recorded = RecordedPass {
            name,
            pass,
            cmds: Vec::new(),
            read_attachments: Vec::new(),
            write_attachments: Vec::new(),
            read_buffers: Vec::new(),
            write_buffers: Vec::new(),
        };
        PassBuilder { graph: self, pass, recorded }
    }

    /// Imports a caller-owned object; importing an equal object again gives
    /// the same index.
    fn import_resource(&mut self, resource: GraphImportedResource) -> (id: usize)
        ensures
            final(self).imported_resources@ == set_insert(old(self).imported_resources@, resource),
            id == first_index(final(self).imported_resources@, resource),
            id < final(self).imported_resources@.len(),
            final(self).imported_resources@[id as int] == resource,
            forall|j: int| 0 <= j < id ==> final(self).imported_resources@[j] != resource,
            final(self).passes == old(self).passes,
            final(self).owned_resources == old(self).owned_resources,
            final(self).resource_to_owning_pass == old(self).resource_to_owning_pass,
            final(self).clear_values == old(self).clear_values,
    {
        let mut i: usize = 0;
        while i < self.imported_resources.len()
            invariant
                i <= self.imported_resources@.len(),
                self == old(self),
                forall|j: int| 0 <= j < i ==> self.imported_resources@[j] != resource,
            decreases self.imported_resources@.len() - i,
        {
            if self.imported_resources[i] == resource {
                proof {
                    let s = self.imported_resources@;
                    assert(s.contains(resource));
                    let k = first_index(s, resource);
                    assert(0 <= k < s.len() && s[k] == resource && forall|j: int|
                        0 <= j < k ==> s[j] != resource) by {
                        assert(0 <= i < s.len() && s[i as int] == resource && forall|j: int|
                            0 <= j < i ==> s[j] != resource);
                    }
                    assert(k == i as int);
                }
                return i;
            }
            i = i + 1;
        }
        proof {
            assert(!self.imported_resources@.contains(resource));
        }
        let id = self.imported_resources.len();
        self.imported_resources.push(resource);
        proof {
            let s = self.imported_resources@;
            let k = first_index(s, resource);
            assert(0 <= k < s.len() && s[k] == resource && forall|j: int|
                0 <= j < k ==> s[j] != resource) by {
                assert(s[id as int] == resource);
            }
        }
        id
    }
}

/// Records one pass. The builder owns the graph while the pass is open;
/// `finish` is the only way back to the graph, and it appends the pass.
#[derive(Debug)]
pub struct PassBuilder {
    pub graph: RenderGraph,
    pub pass: PassHandle,
    pub recorded: RecordedPass,
}

impl PassBuilder {
    /// `next` is `self` with `r` created in this pass and nothing else changed.
    pub open spec fn creates(self, next: PassBuilder, r: GraphOwnedResource) -> bool {
        &&& next.graph.owned_resources@ == self.graph.owned_resources@.push(r)
        &&& next.graph.resource_to_owning_pass@ == self.graph.resource_to_owning_pass@.push(
            self.pass,
        )
        &&& (self.graph.resource_to_owning_pass@.len() == self.graph.owned_resources@.len() ==> {
            &&& next.graph.resource_to_owning_pass@.len() == next.graph.owned_resources@.len()
            &&& next.graph.resource_to_owning_pass@[self.graph.owned_resources@.len() as int] == self.pass
        })
        &&& next.graph.passes == self.graph.passes
        &&& next.graph.imported_resources == self.graph.imported_resources
        &&& next.graph.clear_values == self.graph.clear_values
        &&& next.pass == self.pass
        &&& next.recorded == self.recorded
    }

    /// `next` is `self` with one more resource, created in this pass, and
    /// nothing else changed.
    pub open spec fn creates_one(self, next: PassBuilder) -> bool {
        &&& next.graph.owned_resources@.len() == self.graph.owned_resources@.len() + 1
        &&& next.graph.owned_resources@.drop_last() == self.graph.owned_resources@
        &&& next.graph.resource_to_owning_pass@ == self.graph.resource_to_owning_pass@.push(
            self.pass,
        )
        &&& (self.graph.resource_to_owning_pass@.len() == self.graph.owned_resources@.len() ==> {
            &&& next.graph.resource_to_owning_pass@.len() == next.graph.owned_resources@.len()
            &&& next.graph.resource_to_owning_pass@[self.graph.owned_resources@.len() as int] == self.pass
        })
        &&& next.graph.passes == self.graph.passes
        &&& next.graph.clear_values == self.graph.clear_values
        &&& next.pass == self.pass
    }

    /// `next` is `self` with `c` recorded and nothing else changed.
    pub open spec fn records(self, next: PassBuilder, c: PassCmd) -> bool {
        &&& next.graph == self.graph
        &&& next.pass == self.pass
        &&& next.recorded.cmds@ == self.recorded.cmds@.push(c)
        &&& next.recorded.name == self.recorded.name
        &&& next.recorded.pass == self.recorded.pass
        &&& next.recorded.read_attachments == self.recorded.read_attachments
        &&& next.recorded.write_attachments == self.recorded.write_attachments
        &&& next.recorded.read_buffers == self.recorded.read_buffers
        &&& next.recorded.write_buffers == self.recorded.write_buffers
    }

    /// Ends the pass: appends it to the graph and hands the graph back.
    pub fn finish(self) -> (g: RenderGraph)
        ensures
            g.passes@ == self.graph.passes@.push(self.recorded),
            g.owned_resources == self.graph.owned_resources,
            g.resource_to_owning_pass == self.graph.resource_to_owning_pass,
            g.imported_resources == self.graph.imported_resources,
            g.clear_values == self.graph.clear_values,
    {
        let PassBuilder { graph, pass: _, recorded } = self;
        let mut graph = graph;
        graph.passes.push(recorded);
        graph
    }

    fn create_resource(&mut self, resource: GraphOwnedResource) -> (id: usize)
        ensures
            old(self).creates(*final(self), resource),
            id == old(self).graph.owned_resources@.len(),
    {
        let id = self.graph.owned_resources.len();
        self.graph.owned_resources.push(resource);
        self.graph.resource_to_owning_pass.push(self.pass);
        id
    }

    /// Creates an attachment written by this pass.
    pub fn add_attachment(&mut self, desc: AttachmentDesc) -> (h: MutableGraphAttachmentHandle)
        ensures
            old(self).creates(
                *final(self),
                GraphOwnedResource::Attachment {
                    width: desc.width,
                    height: desc.height,
                    format: desc.format,
                    usage: desc.usage,
                    load_op: desc.load_op,
                    store_op: desc.store_op,
                },
            ),
            h == (MutableGraphAttachmentHandle {
                id: old(self).graph.owned_resources@.len() as usize,
                layout: ImageLayout::Undefined,
                stage: STAGE_NONE,
                access: ACCESS_NONE,
            }),
    {
        let id = self.create_resource(
            GraphOwnedResource::Attachment {
                width: desc.width,
                height: desc.height,
                format: desc.format,
                usage: desc.usage,
                load_op: desc.load_op,
                store_op: desc.store_op,
            },
        );
        MutableGraphAttachmentHandle { id, layout: ImageLayout::Undefined, stage: STAGE_NONE, access: ACCESS_NONE }
    }

    /// Creates a buffer written by this pass.
    pub fn add_buffer(&mut self, desc: BufferDesc) -> (h: MutableGraphBufferHandle)
        ensures
            old(self).creates(
                *final(self),
                GraphOwnedResource::Buffer { size: desc.size, usage: desc.usage, location: desc.location },
            ),
            h == (MutableGraphBufferHandle {
                id: old(self).graph.owned_resources@.len() as usize,
                stage: STAGE_NONE,
                access: ACCESS_NONE,
            }),
    {
        let id = self.create_resource(
            GraphOwnedResource::Buffer { size: desc.size, usage: desc.usage, location: desc.location },
        );
        MutableGraphBufferHandle { id, stage: STAGE_NONE, access: ACCESS_NONE }
    }

    /// Declares that this pass writes `h`.
    fn decl_write_attachment(&mut self, h: MutableGraphAttachmentHandle)
        ensures
            final(self).recorded.write_attachments@ == set_insert(
                old(self).recorded.write_attachments@,
                h,
            ),
            final(self).graph == old(self).graph,
            final(self).pass == old(self).pass,
            final(self).recorded.name == old(self).recorded.name,
            final(self).recorded.pass == old(self).recorded.pass,
            final(self).recorded.cmds == old(self).recorded.cmds,
            final(self).recorded.read_attachments == old(self).recorded.read_attachments,
            final(self).recorded.read_buffers == old(self).recorded.read_buffers,
            final(self).recorded.write_buffers == old(self).recorded.write_buffers,
    {
        let mut i: usize = 0;
        while i < self.recorded.write_attachments.len()
            invariant
                i <= self.recorded.write_attachments@.len(),
                self == old(self),
                forall|j: int| 0 <= j < i ==> self.recorded.write_attachments@[j] != h,
            decreases self.recorded.write_attachments@.len() - i,
        {
            if self.recorded.write_attachments[i] == h {
                assert(self.recorded.write_attachments@.contains(h));
                return;
            }
            i = i + 1;
        }
        self.recorded.write_attachments.push(h);
    }

    /// Declares that this pass reads `h`.
    fn decl_read_attachment(&mut self, h: GraphAttachmentHandle)
        ensures
            final(self).recorded.read_attachments@ == set_insert(
                old(self).recorded.read_attachments@,
                h,
            ),
            final(self).graph == old(self).graph,
            final(self).pass == old(self).pass,
            final(self).recorded.name == old(self).recorded.name,
            final(self).recorded.pass == old(self).recorded.pass,
            final(self).recorded.cmds == old(self).recorded.cmds,
            final(self).recorded.write_attachments == old(self).recorded.write_attachments,
            final(self).recorded.read_buffers == old(self).recorded.read_buffers,
            final(self).recorded.write_buffers == old(self).recorded.write_buffers,
    {
        let mut i: usize = 0;
        while i < self.recorded.read_attachments.len()
            invariant
                i <= self.recorded.read_attachments@.len(),
                self == old(self),
                forall|j: int| 0 <= j < i ==> self.recorded.read_attachments@[j] != h,
            decreases self.recorded.read_attachments@.len() - i,
        {
            if self.recorded.read_attachments[i] == h {
                assert(self.recorded.read_attachments@.contains(h));
                return;
            }
            i = i + 1;
        }
        self.recorded.read_attachments.push(h);
    }

    /// Declares that this pass reads `h`.
    fn decl_read_buffer(&mut self, h: GraphBufferHandle)
        ensures
            final(self).recorded.read_buffers@ == set_insert(old(self).recorded.read_buffers@, h),
            final(self).graph == old(self).graph,
            final(self).pass == old(self).pass,
            final(self).recorded.name == old(self).recorded.name,
            final(self).recorded.pass == old(self).recorded.pass,
            final(self).recorded.cmds == old(self).recorded.cmds,
            final(self).recorded.read_attachments == old(self).recorded.read_attachments,
            final(self).recorded.write_attachments == old(self).recorded.write_attachments,
            final(self).recorded.write_buffers == old(self).recorded.write_buffers,
    {
        let mut i: usize = 0;
        while i < self.recorded.read_buffers.len()
            invariant
                i <= self.recorded.read_buffers@.len(),
                self == old(self),
                forall|j: int| 0 <= j < i ==> self.recorded.read_buffers@[j] != h,
            decreases self.recorded.read_buffers@.len() - i,
        {
            if self.recorded.read_buffers[i] == h {
                assert(self.recorded.read_buffers@.contains(h));
                return;
            }
            i = i + 1;
        }
        self.recorded.read_buffers.push(h);
    }

    /// Declares that this pass writes `h`.
    fn decl_write_buffer(&mut self, h: MutableGraphBufferHandle)
        ensures
            final(self).recorded.write_buffers@ == set_insert(old(self).recorded.write_buffers@, h),
            final(self).graph == old(self).graph,
            final(self).pass == old(self).pass,
            final(self).recorded.name == old(self).recorded.name,
            final(self).recorded.pass == old(self).recorded.pass,
            final(self).recorded.cmds == old(self).recorded.cmds,
            final(self).recorded.read_attachments == old(self).recorded.read_attachments,
            final(self).recorded.write_attachments == old(self).recorded.write_attachments,
            final(self).recorded.read_buffers == old(self).recorded.read_buffers,
    {
        let mut i: usize = 0;
        while i < self.recorded.write_buffers.len()
            invariant
                i <= self.recorded.write_buffers@.len(),
                self == old(self),
                forall|j: int| 0 <= j < i ==> self.recorded.write_buffers@[j] != h,
            decreases self.recorded.write_buffers@.len() - i,
        {
            if self.recorded.write_buffers[i] == h {
                assert(self.recorded.write_buffers@.contains(h));
                return;
            }
            i = i + 1;
        }
        self.recorded.write_buffers.push(h);
    }

    /// Creates a render pass over the given attachments. Each color
    /// attachment handle is moved to the color-output state and each depth
    /// attachment handle to the depth-output state, and the pass is declared
    /// to write them.
    pub fn add_render_pass(&mut self, desc: &mut RenderPassDesc) -> (h: GraphRenderPassHandle)
        ensures
            final(desc).name == old(desc).name,
            final(desc).color_attachments@ == old(desc).color_attachments@.map_values(
                |a: MutableGraphAttachmentHandle| as_color_target(a),
            ),
            final(desc).depth_attachment == match old(desc).depth_attachment {
                Some(a) => Some(as_depth_target(a)),
                None => None,
            },
            final(self).recorded.write_attachments@ == set_insert_all(
                old(self).recorded.write_attachments@,
                match final(desc).depth_attachment {
                    Some(a) => final(desc).color_attachments@.push(a),
                    None => final(desc).color_attachments@,
                },
            ),
            old(self).creates_one(*final(self)),
            is_render_pass_over(
                final(self).graph.owned_resources@.last(),
                final(desc).color_attachments@,
                final(desc).depth_attachment,
            ),
            final(self).graph.imported_resources == old(self).graph.imported_resources,
            final(self).recorded.name == old(self).recorded.name,
            final(self).recorded.pass == old(self).recorded.pass,
            final(self).recorded.cmds == old(self).recorded.cmds,
            final(self).recorded.read_attachments == old(self).recorded.read_attachments,
            final(self).recorded.read_buffers == old(self).recorded.read_buffers,
            final(self).recorded.write_buffers == old(self).recorded.write_buffers,
            h.id == old(self).graph.owned_resources@.len(),
    {
        let ghost w0 = self.recorded.write_attachments@;
        let ghost c0 = desc.color_attachments@;
        let mut colors: Vec<MutableGraphAttachmentHandle> = Vec::new();
        let mut i: usize = 0;
        while i < desc.color_attachments.len()
            invariant
                i <= c0.len(),
                desc.color_attachments@ == c0,
                desc.name == old(desc).name,
                desc.depth_attachment == old(desc).depth_attachment,
                colors@ == c0.take(i as int).map_values(|a: MutableGraphAttachmentHandle| as_color_target(a)),
                self.recorded.write_attachments@ == set_insert_all(w0, colors@),
                self.graph == old(self).graph,
                self.pass == old(self).pass,
                self.recorded.name == old(self).recorded.name,
                self.recorded.pass == old(self).recorded.pass,
                self.recorded.cmds == old(self).recorded.cmds,
                self.recorded.read_attachments == old(self).recorded.read_attachments,
                self.recorded.read_buffers == old(self).recorded.read_buffers,
                self.recorded.write_buffers == old(self).recorded.write_buffers,
            decreases c0.len() - i,
        {
            let a = desc.color_attachments[i];
            let t = MutableGraphAttachmentHandle {
                id: a.id,
                layout: ImageLayout::ColorAttachmentOptimal,
                stage: STAGE_COLOR_ATTACHMENT_OUTPUT,
                access: ACCESS_COLOR_ATTACHMENT_WRITE,
            };
            let ghost before = colors@;
            self.decl_write_attachment(t);
            colors.push(t);
            proof {
                assert(colors@.drop_last() =~= before);
                assert(c0.take(i + 1).map_values(|a: MutableGraphAttachmentHandle| as_color_target(a))
                    =~= c0.take(i as int).map_values(|a: MutableGraphAttachmentHandle| as_color_target(a)).push(t));
            }
            i = i + 1;
        }
        proof {
            assert(c0.take(c0.len() as int) =~= c0);
        }
        let depth = match desc.depth_attachment {
            Some(a) => {
                let t = MutableGraphAttachmentHandle {
                    id: a.id,
                    layout: ImageLayout::DepthStencilAttachmentOptimal,
                    stage: STAGE_LATE_FRAGMENT_TESTS,
                    access: ACCESS_DEPTH_STENCIL_ATTACHMENT_WRITE,
                };
                let ghost before = colors@;
                self.decl_write_attachment(t);
                proof {
                    assert(before.push(t).drop_last() =~= before);
                }
                Some(t)
            },
            None => None,
        };
        desc.color_attachments = colors;
        desc.depth_attachment = depth;
        let mut stored: Vec<MutableGraphAttachmentHandle> = Vec::new();
        let mut k: usize = 0;
        while k < desc.color_attachments.len()
            invariant
                k <= desc.color_attachments@.len(),
                stored@ == desc.color_attachments@.take(k as int),
            decreases desc.color_attachments@.len() - k,
        {
            stored.push(desc.color_attachments[k]);
            proof {
                assert(stored@ =~= desc.color_attachments@.take(k + 1));
            }
            k = k + 1;
        }
        proof {
            assert(desc.color_attachments@.take(desc.color_attachments@.len() as int)
                =~= desc.color_attachments@);
        }
        let id = self.create_resource(
            GraphOwnedResource::RenderPass { color_attachments: stored, depth_attachment: depth },
        );
        proof {
            assert(stored@ == desc.color_attachments@);
            assert(self.graph.owned_resources@.drop_last() =~= old(self).graph.owned_resources@);
        }
        GraphRenderPassHandle { id }
    }

    /// Creates a raster pipeline; its shader modules are imported.
    pub fn add_raster_pipeline(&mut self, desc: RasterPipelineDesc) -> (h: GraphRasterPipelineHandle)
        ensures
            old(self).creates_one(*final(self)),
            final(self).recorded == old(self).recorded,
            final(self).graph.imported_resources@ == match desc.ps {
                Some(ps) => set_insert(
                    set_insert(
                        old(self).graph.imported_resources@,
                        GraphImportedResource::Shader { module: desc.vs },
                    ),
                    GraphImportedResource::Shader { module: ps },
                ),
                None => set_insert(
                    old(self).graph.imported_resources@,
                    GraphImportedResource::Shader { module: desc.vs },
                ),
            },
            final(self).graph.owned_resources@.last() == GraphOwnedResource::RasterPipeline(
                RasterPipelineResource {
                    vs: GraphImportedShaderHandle {
                        id: first_index(
                            final(self).graph.imported_resources@,
                            GraphImportedResource::Shader { module: desc.vs },
                        ) as usize,
                    },
                    ps: match desc.ps {
                        Some(ps) => Some(
                            GraphImportedShaderHandle {
                                id: first_index(
                                    final(self).graph.imported_resources@,
                                    GraphImportedResource::Shader { module: ps },
                                ) as usize,
                            },
                        ),
                        None => None,
                    },
                    descriptor_layouts: desc.descriptor_layouts,
                    render_pass: desc.render_pass,
                    depth_compare_op: desc.depth_compare_op,
                    depth_write: desc.depth_write,
                    face_cull: desc.face_cull,
                    push_constant_bytes: desc.push_constant_bytes,
                    vertex_input_info: desc.vertex_input_info,
                    polygon_mode: desc.polygon_mode,
                },
            ),
            h.id == old(self).graph.owned_resources@.len(),
    {
        let vs_id = self.graph.import_resource(GraphImportedResource::Shader { module: desc.vs });
        let ghost after_vs = self.graph.imported_resources@;
        let ps = match desc.ps {
            Some(module) => {
                let id = self.graph.import_resource(GraphImportedResource::Shader { module });
                proof {
                    let r = GraphImportedResource::Shader { module: desc.vs };
                    let s = self.graph.imported_resources@;
                    assert(forall|j: int| 0 <= j < after_vs.len() ==> s[j] == after_vs[j]);
                    assert(0 <= vs_id < s.len() && s[vs_id as int] == r && forall|j: int|
                        0 <= j < vs_id ==> s[j] != r);
                    let k = first_index(s, r);
                    assert(k == vs_id as int);
                }
                Some(GraphImportedShaderHandle { id })
            },
            None => None,
        };
        let id = self.create_resource(
            GraphOwnedResource::RasterPipeline(
                RasterPipelineResource {
                    vs: GraphImportedShaderHandle { id: vs_id },
                    ps,
                    descriptor_layouts: desc.descriptor_layouts,
                    render_pass: desc.render_pass,
                    depth_compare_op: desc.depth_compare_op,
                    depth_write: desc.depth_write,
                    face_cull: desc.face_cull,
                    push_constant_bytes: desc.push_constant_bytes,
                    vertex_input_info: desc.vertex_input_info,
                    polygon_mode: desc.polygon_mode,
                },
            ),
        );
        proof {
            assert(self.graph.owned_resources@.drop_last() =~= old(self).graph.owned_resources@);
        }
        GraphRasterPipelineHandle { id }
    }

    /// Creates a compute pipeline; its shader module is imported.
    pub fn add_compute_pipeline(&mut self, desc: ComputePipelineDesc) -> (h: GraphComputePipelineHandle)
        ensures
            old(self).creates_one(*final(self)),
            final(self).recorded == old(self).recorded,
            final(self).graph.imported_resources@ == set_insert(
                old(self).graph.imported_resources@,
                GraphImportedResource::Shader { module: desc.cs },
            ),
            final(self).graph.owned_resources@.last() == (GraphOwnedResource::ComputePipeline {
                cs: GraphImportedShaderHandle {
                    id: first_index(
                        final(self).graph.imported_resources@,
                        GraphImportedResource::Shader { module: desc.cs },
                    ) as usize,
                },
                descriptor_layouts: desc.descriptor_layouts,
            }),
            h.id == old(self).graph.owned_resources@.len(),
    {
        let cs = self.graph.import_resource(GraphImportedResource::Shader { module: desc.cs });
        let id = self.create_resource(
            GraphOwnedResource::ComputePipeline {
                cs: GraphImportedShaderHandle { id: cs },
                descriptor_layouts: desc.descriptor_layouts,
            },
        );
        proof {
            assert(self.graph.owned_resources@.drop_last() =~= old(self).graph.owned_resources@);
        }
        GraphComputePipelineHandle { id }
    }

    /// Creates a descriptor set. Imported buffers and textures are imported;
    /// read attachments and read buffers join this pass's reads; mutable
    /// buffers are moved to the shader read/write state and join its writes.
    pub fn add_descriptor_set(&mut self, desc: &mut DescriptorDesc) -> (h: GraphDescriptorHandle)
        ensures
            final(desc).name == old(desc).name,
            final(desc).descriptor_layout == old(desc).descriptor_layout,
            final(desc).bindings@ == old(desc).bindings@.map_values(
                |b: (u32, DescriptorBindingDesc)| (b.0, updated_binding(b.1)),
            ),
            ({
                let st = bind_all(
                    BindState {
                        imported: old(self).graph.imported_resources@,
                        read_attachments: old(self).recorded.read_attachments@,
                        read_buffers: old(self).recorded.read_buffers@,
                        write_buffers: old(self).recorded.write_buffers@,
                        bindings: Seq::empty(),
                    },
                    old(desc).bindings@,
                );
                &&& final(self).graph.imported_resources@ == st.imported
                &&& final(self).recorded.read_attachments@ == st.read_attachments
                &&& final(self).recorded.read_buffers@ == st.read_buffers
                &&& final(self).recorded.write_buffers@ == st.write_buffers
                &&& is_descriptor_set_over(
                    final(self).graph.owned_resources@.last(),
                    old(desc).descriptor_layout,
                    st.bindings,
                )
            }),
            old(self).creates_one(*final(self)),
            final(self).recorded.name == old(self).recorded.name,
            final(self).recorded.pass == old(self).recorded.pass,
            final(self).recorded.cmds == old(self).recorded.cmds,
            final(self).recorded.write_attachments == old(self).recorded.write_attachments,
            h.id == old(self).graph.owned_resources@.len(),
    {
        let ghost b0 = desc.bindings@;
        let ghost init = BindState {
            imported: self.graph.imported_resources@,
            read_attachments: self.recorded.read_attachments@,
            read_buffers: self.recorded.read_buffers@,
            write_buffers: self.recorded.write_buffers@,
            bindings: Seq::empty(),
        };
        let mut bindings: Vec<(u32, GraphOwnedResourceDescriptorBinding)> = Vec::new();
        let mut i: usize = 0;
        while i < desc.bindings.len()
            invariant
                i <= b0.len(),
                desc.bindings@.len() == b0.len(),
                desc.name == old(desc).name,
                desc.descriptor_layout == old(desc).descriptor_layout,
                forall|j: int| 0 <= j < i ==> desc.bindings@[j] == (b0[j].0, updated_binding(b0[j].1)),
                forall|j: int| i <= j < b0.len() ==> desc.bindings@[j] == b0[j],
                (BindState {
                    imported: self.graph.imported_resources@,
                    read_attachments: self.recorded.read_attachments@,
                    read_buffers: self.recorded.read_buffers@,
                    write_buffers: self.recorded.write_buffers@,
                    bindings: bindings@,
                }) == bind_all(init, b0.take(i as int)),
                self.graph.owned_resources == old(self).graph.owned_resources,
                self.graph.resource_to_owning_pass == old(self).graph.resource_to_owning_pass,
                self.graph.passes == old(self).graph.passes,
                self.graph.clear_values == old(self).graph.clear_values,
                self.pass == old(self).pass,
                self.recorded.name == old(self).recorded.name,
                self.recorded.pass == old(self).recorded.pass,
                self.recorded.cmds == old(self).recorded.cmds,
                self.recorded.write_attachments == old(self).recorded.write_attachments,
            decreases b0.len() - i,
        {
            let (slot, b) = desc.bindings[i];
            proof {
                assert(b0.take(i + 1).drop_last() =~= b0.take(i as int));
                assert(b0.take(i + 1).last() == b0[i as int]);
            }
            let recorded = match b {
                DescriptorBindingDesc::ImportedBuffer { raw, size } => {
                    let id = self.graph.import_resource(GraphImportedResource::Buffer { raw, size });
                    GraphOwnedResourceDescriptorBinding::ImportedBuffer(GraphImportedBufferHandle { id })
                },
                DescriptorBindingDesc::ImportedTexture { image, sampler, image_view } => {
                    let id = self.graph.import_resource(
                        GraphImportedResource::Texture { image, sampler, image_view },
                    );
                    GraphOwnedResourceDescriptorBinding::ImportedTexture(GraphImportedTextureHandle { id })
                },
                DescriptorBindingDesc::Buffer(h) => {
                    self.decl_read_buffer(h);
                    GraphOwnedResourceDescriptorBinding::Buffer(h)
                },
                DescriptorBindingDesc::MutableBuffer(h) => {
                    let t = MutableGraphBufferHandle {
                        id: h.id,
                        stage: STAGE_ALL_SHADERS,
                        access: ACCESS_SHADER_READ_WRITE,
                    };
                    self.decl_write_buffer(t);
                    desc.bindings.set(i, (slot, DescriptorBindingDesc::MutableBuffer(t)));
                    GraphOwnedResourceDescriptorBinding::MutableBuffer(t)
                },
                DescriptorBindingDesc::Attachment(h) => {
                    self.decl_read_attachment(h);
                    GraphOwnedResourceDescriptorBinding::Attachment(h)
                },
            };
            bindings.push((slot, recorded));
            i = i + 1;
        }
        proof {
            assert(b0.take(b0.len() as int) =~= b0);
            assert(desc.bindings@ =~= b0.map_values(
                |b: (u32, DescriptorBindingDesc)| (b.0, updated_binding(b.1)),
            ));
        }
        let ghost st = bindings@;
        let id = self.create_resource(
            GraphOwnedResource::DescriptorSet { descriptor_layout: desc.descriptor_layout, bindings },
        );
        proof {
            assert(self.graph.owned_resources@.drop_last() =~= old(self).graph.owned_resources@);
        }
        GraphDescriptorHandle { id }
    }

    /// Records the start of `render_pass`, clearing its attachments to
    /// `clear_values`, which join the graph's table of clear values.
    pub fn cmd_begin_render_pass(&mut self, render_pass: GraphRenderPassHandle, clear_values: &[ClearValue])
        ensures
            final(self).graph.clear_values@.len() == old(self).graph.clear_values@.len() + 1,
            final(self).graph.clear_values@.drop_last() == old(self).graph.clear_values@,
            final(self).graph.clear_values@.last()@ == clear_values@,
            final(self).graph.passes == old(self).graph.passes,
            final(self).graph.owned_resources == old(self).graph.owned_resources,
            final(self).graph.resource_to_owning_pass == old(self).graph.resource_to_owning_pass,
            final(self).graph.imported_resources == old(self).graph.imported_resources,
            final(self).pass == old(self).pass,
            final(self).recorded.cmds@ == old(self).recorded.cmds@.push(
                PassCmd::BeginRenderPass {
                    render_pass,
                    clear_values: old(self).graph.clear_values@.len() as usize,
                },
            ),
            final(self).recorded.name == old(self).recorded.name,
            final(self).recorded.pass == old(self).recorded.pass,
            final(self).recorded.read_attachments == old(self).recorded.read_attachments,
            final(self).recorded.write_attachments == old(self).recorded.write_attachments,
            final(self).recorded.read_buffers == old(self).recorded.read_buffers,
            final(self).recorded.write_buffers == old(self).recorded.write_buffers,
    {
        let index = self.graph.clear_values.len();
        self.graph.clear_values.push(vstd::slice::slice_to_vec(clear_values));
        self.recorded.cmds.push(PassCmd::BeginRenderPass { render_pass, clear_values: index });
        proof {
            assert(self.graph.clear_values@.drop_last() =~= old(self).graph.clear_values@);
        }
    }

    pub fn cmd_end_render_pass(&mut self)
        ensures
            old(self).records(*final(self), PassCmd::EndRenderPass),
    {
        self.recorded.cmds.push(PassCmd::EndRenderPass);
    }

    pub fn cmd_bind_raster_pipeline(&mut self, pipeline: GraphRasterPipelineHandle)
        ensures
            old(self).records(*final(self), PassCmd::BindRasterPipeline { pipeline }),
    {
        self.recorded.cmds.push(PassCmd::BindRasterPipeline { pipeline });
    }

    pub fn cmd_bind_compute_pipeline(&mut self, pipeline: GraphComputePipelineHandle)
        ensures
            old(self).records(*final(self), PassCmd::BindComputePipeline { pipeline }),
    {
        self.recorded.cmds.push(PassCmd::BindComputePipeline { pipeline });
    }

    pub fn cmd_bind_raster_descriptor(
        &mut self,
        descriptor: GraphDescriptorHandle,
        set: u32,
        pipeline: GraphRasterPipelineHandle,
    )
        ensures
            old(self).records(
                *final(self),
                PassCmd::BindDescriptor { set, descriptor, pipeline: GraphPipelineHandle::Raster(pipeline) },
            ),
    {
        self.recorded.cmds.push(
            PassCmd::BindDescriptor { set, descriptor, pipeline: GraphPipelineHandle::Raster(pipeline) },
        );
    }

    pub fn cmd_bind_compute_descriptor(
        &mut self,
        descriptor: GraphDescriptorHandle,
        set: u32,
        pipeline: GraphComputePipelineHandle,
    )
        ensures
            old(self).records(
                *final(self),
                PassCmd::BindDescriptor { set, descriptor, pipeline: GraphPipelineHandle::Compute(pipeline) },
            ),
    {
        self.recorded.cmds.push(
            PassCmd::BindDescriptor { set, descriptor, pipeline: GraphPipelineHandle::Compute(pipeline) },
        );
    }

    /// Records drawing `mesh`, which is imported.
    pub fn cmd_draw_mesh(&mut self, mesh: Mesh)
        ensures
            final(self).graph.imported_resources@ == set_insert(
                old(self).graph.imported_resources@,
                GraphImportedResource::Mesh(mesh),
            ),
            final(self).graph.passes == old(self).graph.passes,
            final(self).graph.owned_resources == old(self).graph.owned_resources,
            final(self).graph.resource_to_owning_pass == old(self).graph.resource_to_owning_pass,
            final(self).graph.clear_values == old(self).graph.clear_values,
            final(self).recorded.cmds@ == old(self).recorded.cmds@.push(
                PassCmd::DrawMesh {
                    mesh: GraphImportedMeshHandle {
                        id: first_index(
                            final(self).graph.imported_resources@,
                            GraphImportedResource::Mesh(mesh),
                        ) as usize,
                    },
                },
            ),
            final(self).pass == old(self).pass,
            final(self).recorded.name == old(self).recorded.name,
            final(self).recorded.pass == old(self).recorded.pass,
            final(self).recorded.read_attachments == old(self).recorded.read_attachments,
            final(self).recorded.write_attachments == old(self).recorded.write_attachments,
            final(self).recorded.read_buffers == old(self).recorded.read_buffers,
            final(self).recorded.write_buffers == old(self).recorded.write_buffers,
    {
        let id = self.graph.import_resource(GraphImportedResource::Mesh(mesh));
        self.recorded.cmds.push(PassCmd::DrawMesh { mesh: GraphImportedMeshHandle { id } });
    }

    pub fn cmd_draw(&mut self, vertex_count: u32, instance_count: u32, first_vertex: u32, first_instance: u32)
        ensures
            old(self).records(
                *final(self),
                PassCmd::Draw { vertex_count, instance_count, first_vertex, first_instance },
            ),
    {
        self.recorded.cmds.push(PassCmd::Draw { vertex_count, instance_count, first_vertex, first_instance });
    }

    pub fn cmd_dispatch(&mut self, group_count_x: u32, group_count_y: u32, group_count_z: u32)
        ensures
            old(self).records(*final(self), PassCmd::Dispatch { group_count_x, group_count_y, group_count_z }),
    {
        self.recorded.cmds.push(PassCmd::Dispatch { group_count_x, group_count_y, group_count_z });
    }

    /// Creates the output render pass, which draws to the swapchain image.
    pub fn add_output_render_pass(&mut self) -> (h: GraphRenderPassHandle)
        ensures
            old(self).creates(*final(self), GraphOwnedResource::OutputRenderPass),
            h.id == old(self).graph.owned_resources@.len(),
    {
        let id = self.create_resource(GraphOwnedResource::OutputRenderPass);
        GraphRenderPassHandle { id }
    }
}

} // verus!
