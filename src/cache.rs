use vstd::prelude::*;
use crate::resources::{
    TEXTURE_USAGE_ATTACHMENT, AttachmentDescription, BufferUsage, DepthCompareOp, FaceCullMode, ImageLayout, MemoryLocation,
    PolygonMode, TextureFormat, TextureUsage, VertexAttributeDescriptionBinding,
};
use crate::graph::{DescriptorSetInfoId, ShaderModule};
use crate::pool::{key_views, CacheKey, KeyTable, PhysicalPool};

verus! {

/// Whether two key sequences have equal views.
pub fn vec_same<T: CacheKey>(a: &Vec<T>, b: &Vec<T>) -> (r: bool)
    ensures
        r == (key_views(a@) == key_views(b@)),
{
    if a.len() != b.len() {
        proof {
            assert(key_views(a@).len() != key_views(b@).len());
        }
        return false;
    }
    let mut i: usize = 0;
    while i < a.len()
        invariant
            i <= a@.len(),
            a@.len() == b@.len(),
            forall|j: int| 0 <= j < i ==> a@[j]@ == b@[j]@,
        decreases a@.len() - i,
    {
        if !a[i].same_key(&b[i]) {
            proof {
                assert(key_views(a@)[i as int] != key_views(b@)[i as int]);
            }
            return false;
        }
        i = i + 1;
    }
    proof {
        assert(key_views(a@) =~= key_views(b@));
    }
    true
}

/// A copy of `v`.
pub fn vec_copy<T: Copy>(v: &Vec<T>) -> (r: Vec<T>)
    ensures
        r@ == v@,
{
    let mut r: Vec<T> = Vec::new();
    let mut i: usize = 0;
    while i < v.len()
        invariant
            i <= v@.len(),
            r@ == v@.take(i as int),
        decreases v@.len() - i,
    {
        r.push(v[i]);
        proof {
            assert(r@ =~= v@.take(i + 1));
        }
        i = i + 1;
    }
    proof {
        assert(v@.take(v@.len() as int) =~= v@);
    }
    r
}

impl CacheKey for u64 {
    fn same_key(&self, other: &Self) -> (r: bool) {
        *self == *other
    }

    fn duplicate(&self) -> (r: Self) {
        *self
    }
}

impl CacheKey for usize {
    fn same_key(&self, other: &Self) -> (r: bool) {
        *self == *other
    }

    fn duplicate(&self) -> (r: Self) {
        *self
    }
}

impl View for AttachmentDescription {
    type V = AttachmentDescription;

    open spec fn view(&self) -> AttachmentDescription {
        *self
    }
}

impl CacheKey for AttachmentDescription {
    fn same_key(&self, other: &Self) -> (r: bool) {
        *self == *other
    }

    fn duplicate(&self) -> (r: Self) {
        *self
    }
}

impl View for VertexAttributeDescriptionBinding {
    type V = VertexAttributeDescriptionBinding;

    open spec fn view(&self) -> VertexAttributeDescriptionBinding {
        *self
    }
}

impl CacheKey for VertexAttributeDescriptionBinding {
    fn same_key(&self, other: &Self) -> (r: bool) {
        *self == *other
    }

    fn duplicate(&self) -> (r: Self) {
        *self
    }
}

/// Shape of a pooled attachment image.
#[derive(Debug, Copy, Clone, PartialEq, Eq, Hash, Structural)]
pub struct AttachmentCacheKey {
    pub width: u32,
    pub height: u32,
    pub format: TextureFormat,
    pub usage: TextureUsage,
}

impl AttachmentCacheKey {
    /// The usage an attachment image of this shape is created with: the
    /// key's usage plus the attachment bit.
    pub fn image_usage(&self) -> (r: TextureUsage)
        ensures
            r == self.usage | TEXTURE_USAGE_ATTACHMENT,
    {
        self.usage | TEXTURE_USAGE_ATTACHMENT
    }
}

impl View for AttachmentCacheKey {
    type V = AttachmentCacheKey;

    open spec fn view(&self) -> AttachmentCacheKey {
        *self
    }
}

impl CacheKey for AttachmentCacheKey {
    fn same_key(&self, other: &Self) -> (r: bool) {
        *self == *other
    }

    fn duplicate(&self) -> (r: Self) {
        *self
    }
}

/// Shape of a pooled buffer.
#[derive(Debug, Copy, Clone, PartialEq, Eq, Hash, Structural)]
pub struct BufferCacheKey {
    pub size: usize,
    pub usage: BufferUsage,
    pub location: MemoryLocation,
}

impl View for BufferCacheKey {
    type V = BufferCacheKey;

    open spec fn view(&self) -> BufferCacheKey {
        *self
    }
}

impl CacheKey for BufferCacheKey {
    fn same_key(&self, other: &Self) -> (r: bool) {
        *self == *other
    }

    fn duplicate(&self) -> (r: Self) {
        *self
    }
}

/// Attachments of a render-pass object, with their load, store and layouts.
#[derive(Debug)]
pub struct RenderPassCacheKey {
    pub color_attachment_descs: Vec<AttachmentDescription>,
    pub depth_attachment_desc: Option<AttachmentDescription>,
}

impl View for RenderPassCacheKey {
    type V = (Seq<AttachmentDescription>, Option<AttachmentDescription>);

    open spec fn view(&self) -> (Seq<AttachmentDescription>, Option<AttachmentDescription>) {
        (key_views(self.color_attachment_descs@), self.depth_attachment_desc)
    }
}

impl CacheKey for RenderPassCacheKey {
    fn same_key(&self, other: &Self) -> (r: bool) {
        vec_same(&self.color_attachment_descs, &other.color_attachment_descs)
            && self.depth_attachment_desc == other.depth_attachment_desc
    }

    fn duplicate(&self) -> (r: Self) {
        let r = RenderPassCacheKey {
            color_attachment_descs: vec_copy(&self.color_attachment_descs),
            depth_attachment_desc: self.depth_attachment_desc,
        };
        proof {
            assert(key_views(r.color_attachment_descs@) =~= key_views(self.color_attachment_descs@));
        }
        r
    }
}

/// A framebuffer: its size, its physical attachments and its render pass.
#[derive(Debug)]
pub struct FramebufferCacheKey {
    pub width: u32,
    pub height: u32,
    pub attachments: Vec<usize>,
    pub render_pass: usize,
}

impl View for FramebufferCacheKey {
    type V = (u32, u32, Seq<usize>, usize);

    open spec fn view(&self) -> (u32, u32, Seq<usize>, usize) {
        (self.width, self.height, key_views(self.attachments@), self.render_pass)
    }
}

impl CacheKey for FramebufferCacheKey {
    fn same_key(&self, other: &Self) -> (r: bool) {
        self.width == other.width && self.height == other.height && vec_same(
            &self.attachments,
            &other.attachments,
        ) && self.render_pass == other.render_pass
    }

    fn duplicate(&self) -> (r: Self) {
        let r = FramebufferCacheKey {
            width: self.width,
            height: self.height,
            attachments: vec_copy(&self.attachments),
            render_pass: self.render_pass,
        };
        proof {
            assert(key_views(r.attachments@) =~= key_views(self.attachments@));
        }
        r
    }
}

/// What a raster pipeline draws into: the swapchain's own output pass, or a
/// physical render-pass object.
#[derive(Debug, Copy, Clone, PartialEq, Eq, Hash, Structural)]
pub enum RenderTarget {
    Output,
    RenderPass(usize),
}

/// The fixed-size part of a raster pipeline's shape.
#[derive(Debug, Copy, Clone, PartialEq, Eq, Hash, Structural)]
pub struct RasterPipelineState {
    pub vs: ShaderModule,
    pub ps: Option<ShaderModule>,
    pub render_pass: RenderTarget,
    pub depth_compare_op: Option<DepthCompareOp>,
    pub depth_write: bool,
    pub face_cull: FaceCullMode,
    pub push_constant_bytes: usize,
    pub vertex_stride: u32,
    pub polygon_mode: PolygonMode,
}

/// Shape of a raster pipeline.
#[derive(Debug)]
pub struct RasterPipelineCacheKey {
    pub state: RasterPipelineState,
    pub descriptor_layouts: Vec<DescriptorSetInfoId>,
    pub vertex_attributes: Vec<VertexAttributeDescriptionBinding>,
}

impl View for RasterPipelineCacheKey {
    type V = (RasterPipelineState, Seq<u64>, Seq<VertexAttributeDescriptionBinding>);

    open spec fn view(&self) -> (RasterPipelineState, Seq<u64>, Seq<VertexAttributeDescriptionBinding>) {
        (self.state, key_views(self.descriptor_layouts@), key_views(self.vertex_attributes@))
    }
}

impl CacheKey for RasterPipelineCacheKey {
    fn same_key(&self, other: &Self) -> (r: bool) {
        self.state == other.state && vec_same(&self.descriptor_layouts, &other.descriptor_layouts)
            && vec_same(&self.vertex_attributes, &other.vertex_attributes)
    }

    fn duplicate(&self) -> (r: Self) {
        let r = RasterPipelineCacheKey {
            state: self.state,
            descriptor_layouts: vec_copy(&self.descriptor_layouts),
            vertex_attributes: vec_copy(&self.vertex_attributes),
        };
        proof {
            assert(key_views(r.descriptor_layouts@) =~= key_views(self.descriptor_layouts@));
            assert(key_views(r.vertex_attributes@) =~= key_views(self.vertex_attributes@));
        }
        r
    }
}

/// Shape of a compute pipeline.
#[derive(Debug)]
pub struct ComputePipelineCacheKey {
    pub cs: ShaderModule,
    pub descriptor_layouts: Vec<DescriptorSetInfoId>,
}

impl View for ComputePipelineCacheKey {
    type V = (u64, Seq<u64>);

    open spec fn view(&self) -> (u64, Seq<u64>) {
        (self.cs, key_views(self.descriptor_layouts@))
    }
}

impl CacheKey for ComputePipelineCacheKey {
    fn same_key(&self, other: &Self) -> (r: bool) {
        self.cs == other.cs && vec_same(&self.descriptor_layouts, &other.descriptor_layouts)
    }

    fn duplicate(&self) -> (r: Self) {
        let r = ComputePipelineCacheKey { cs: self.cs, descriptor_layouts: vec_copy(&self.descriptor_layouts) };
        proof {
            assert(key_views(r.descriptor_layouts@) =~= key_views(self.descriptor_layouts@));
        }
        r
    }
}

/// What one binding of a physical descriptor set points at: an imported
/// object by its raw identity, or a pooled object by its physical index.
#[derive(Debug, Copy, Clone, PartialEq, Eq, Hash, Structural)]
pub enum DescriptorHeapCacheKeyBinding {
    ImportedBuffer { buffer: u64, size: u64 },
    ImportedTexture { image: u64, sampler: u64, image_view: u64 },
    Buffer { buffer: usize },
    Attachment { attachment: usize, layout: ImageLayout },
}

impl View for DescriptorHeapCacheKeyBinding {
    type V = DescriptorHeapCacheKeyBinding;

    open spec fn view(&self) -> DescriptorHeapCacheKeyBinding {
        *self
    }
}

impl CacheKey for (u32, DescriptorHeapCacheKeyBinding) {
    fn same_key(&self, other: &Self) -> (r: bool) {
        self.0 == other.0 && self.1 == other.1
    }

    fn duplicate(&self) -> (r: Self) {
        *self
    }
}

/// The resolved bindings of a descriptor set; equal keys share one physical
/// descriptor set.
#[derive(Debug)]
pub struct DescriptorHeapCacheKey {
    pub bindings: Vec<(u32, DescriptorHeapCacheKeyBinding)>,
}

impl View for DescriptorHeapCacheKey {
    type V = Seq<(u32, DescriptorHeapCacheKeyBinding)>;

    open spec fn view(&self) -> Seq<(u32, DescriptorHeapCacheKeyBinding)> {
        key_views(self.bindings@)
    }
}

impl CacheKey for DescriptorHeapCacheKey {
    fn same_key(&self, other: &Self) -> (r: bool) {
        vec_same(&self.bindings, &other.bindings)
    }

    fn duplicate(&self) -> (r: Self) {
        let r = DescriptorHeapCacheKey { bindings: vec_copy(&self.bindings) };
        proof {
            assert(key_views(r.bindings@) =~= key_views(self.bindings@));
        }
        r
    }
}

/// A physical descriptor set: the heap of its layout and its index there.
#[derive(Debug, Copy, Clone, PartialEq, Eq, Hash, Structural)]
pub struct DescriptorHandle {
    pub heap: usize,
    pub index: usize,
}

/// Process-lifetime pools of physical objects, each keyed by shape so that
/// requests of the same shape reuse objects across executions. Objects are
/// only ever added; the objects themselves live with the device, under the
/// indices given here.
#[derive(Debug)]
pub struct RenderGraphCache {
    pub attachment_cache: PhysicalPool<AttachmentCacheKey>,
    pub buffer_cache: PhysicalPool<BufferCacheKey>,
    pub render_pass_cache: KeyTable<RenderPassCacheKey>,
    pub framebuffer_cache: KeyTable<FramebufferCacheKey>,
    pub raster_pipeline_cache: KeyTable<RasterPipelineCacheKey>,
    pub compute_pipeline_cache: KeyTable<ComputePipelineCacheKey>,
    /// Layouts with a descriptor heap; heap `i` belongs to layout `i`.
    pub descriptor_layouts: KeyTable<DescriptorSetInfoId>,
    /// For each heap, the keys of the descriptor sets allocated from it.
    pub descriptor_heaps: Vec<KeyTable<DescriptorHeapCacheKey>>,
}

/// The kinds of object the cache holds.
#[derive(Debug, Copy, Clone, PartialEq, Eq, Structural)]
pub enum ObjectKind {
    RasterPipeline,
    ComputePipeline,
    Framebuffer,
    RenderPass,
    Attachment,
    Buffer,
    DescriptorHeap,
}

/// Destroy object `index` of kind `kind`.
#[derive(Debug, Copy, Clone, PartialEq, Eq, Structural)]
pub struct DestroyCmd {
    pub kind: ObjectKind,
    pub index: usize,
}

/// `cmds` from `at` on holds one command for each object `0..n` of `kind`.
pub open spec fn destroys_all(cmds: Seq<DestroyCmd>, at: int, kind: ObjectKind, n: int) -> bool {
    forall|j: int| 0 <= j < n ==> #[trigger] cmds[at + j] == (DestroyCmd { kind, index: j as usize })
}

/// Appends a command destroying each object `0..n` of `kind`.
fn push_destroys(out: &mut Vec<DestroyCmd>, kind: ObjectKind, n: usize)
    ensures
        final(out)@.len() == old(out)@.len() + n,
        forall|j: int| 0 <= j < old(out)@.len() ==> #[trigger] final(out)@[j] == old(out)@[j],
        destroys_all(final(out)@, old(out)@.len() as int, kind, n as int),
{
    let ghost start = out@;
    let mut j: usize = 0;
    while j < n
        invariant
            j <= n,
            out@.len() == start.len() + j,
            forall|k: int| 0 <= k < start.len() ==> #[trigger] out@[k] == start[k],
            destroys_all(out@, start.len() as int, kind, j as int),
        decreases n - j,
    {
        out.push(DestroyCmd { kind, index: j });
        j = j + 1;
    }
}

impl RenderGraphCache {
    /// The pools are consistent: no table lists a key twice and each
    /// descriptor layout has its heap.
    pub open spec fn wf(&self) -> bool {
        &&& self.attachment_cache.wf()
        &&& self.buffer_cache.wf()
        &&& self.descriptor_heaps@.len() == self.descriptor_layouts.keys@.len()
        &&& self.render_pass_cache.distinct()
        &&& self.framebuffer_cache.distinct()
        &&& self.raster_pipeline_cache.distinct()
        &&& self.compute_pipeline_cache.distinct()
        &&& self.descriptor_layouts.distinct()
        &&& forall|h: int| 0 <= h < self.descriptor_heaps@.len() ==> #[trigger] self.descriptor_heaps@[h].distinct()
    }

    /// Tears the cache down: one command for every object it holds, users
    /// before what they use (pipelines, framebuffers, render passes, then
    /// images, buffers and descriptor heaps).
    pub fn destroy(self) -> (cmds: Vec<DestroyCmd>)
        ensures
            ({
                let np = self.raster_pipeline_cache.keys@.len() as int;
                let nc = self.compute_pipeline_cache.keys@.len() as int;
                let nf = self.framebuffer_cache.keys@.len() as int;
                let nr = self.render_pass_cache.keys@.len() as int;
                let na = self.attachment_cache.count as int;
                let nb = self.buffer_cache.count as int;
                let nh = self.descriptor_layouts.keys@.len() as int;
                &&& cmds@.len() == np + nc + nf + nr + na + nb + nh
                &&& destroys_all(cmds@, 0, ObjectKind::RasterPipeline, np)
                &&& destroys_all(cmds@, np, ObjectKind::ComputePipeline, nc)
                &&& destroys_all(cmds@, np + nc, ObjectKind::Framebuffer, nf)
                &&& destroys_all(cmds@, np + nc + nf, ObjectKind::RenderPass, nr)
                &&& destroys_all(cmds@, np + nc + nf + nr, ObjectKind::Attachment, na)
                &&& destroys_all(cmds@, np + nc + nf + nr + na, ObjectKind::Buffer, nb)
                &&& destroys_all(cmds@, np + nc + nf + nr + na + nb, ObjectKind::DescriptorHeap, nh)
            }),
    {
        let mut cmds: Vec<DestroyCmd> = Vec::new();
        push_destroys(&mut cmds, ObjectKind::RasterPipeline, self.raster_pipeline_cache.keys.len());
        push_destroys(&mut cmds, ObjectKind::ComputePipeline, self.compute_pipeline_cache.keys.len());
        push_destroys(&mut cmds, ObjectKind::Framebuffer, self.framebuffer_cache.keys.len());
        push_destroys(&mut cmds, ObjectKind::RenderPass, self.render_pass_cache.keys.len());
        push_destroys(&mut cmds, ObjectKind::Attachment, self.attachment_cache.count);
        push_destroys(&mut cmds, ObjectKind::Buffer, self.buffer_cache.count);
        push_destroys(&mut cmds, ObjectKind::DescriptorHeap, self.descriptor_layouts.keys.len());
        cmds
    }

    /// A cache with no objects.
    pub fn new() -> (c: RenderGraphCache)
        ensures
            c.wf(),
            c.attachment_cache.count == 0,
            c.buffer_cache.count == 0,
            forall|k: AttachmentCacheKey| c.attachment_cache.pool_len(k) == 0,
            forall|k: BufferCacheKey| c.buffer_cache.pool_len(k) == 0,
            c.render_pass_cache.keys@.len() == 0,
            c.framebuffer_cache.keys@.len() == 0,
            c.raster_pipeline_cache.keys@.len() == 0,
            c.compute_pipeline_cache.keys@.len() == 0,
            c.descriptor_layouts.keys@.len() == 0,
    {
        RenderGraphCache {
            attachment_cache: PhysicalPool::new(),
            buffer_cache: PhysicalPool::new(),
            render_pass_cache: KeyTable::new(),
            framebuffer_cache: KeyTable::new(),
            raster_pipeline_cache: KeyTable::new(),
            compute_pipeline_cache: KeyTable::new(),
            descriptor_layouts: KeyTable::new(),
            descriptor_heaps: Vec::new(),
        }
    }
}

} // verus!
