use vstd::prelude::*;
use crate::resources::ClearValue;
use crate::graph::{GraphOwnedResource, RenderGraph};
use crate::cache::{AttachmentCacheKey, BufferCacheKey, RenderGraphCache};
use crate::resolve::{has_cycle_from, is_execution_order, owner_of};
use crate::valid::graph_valid;
use crate::allocate::{
    alloc_pooled, attachment_key_of, attachment_keys, buffer_key_of, buffer_keys, fresh_count,
    compute_view_of, descriptor_bound, heap_len, descriptor_view_of, framebuffer_view_of, render_pass_view_of, set_bound_to, has_update, update_matches, occurrences, opt_views, raster_view_of, render_pass_bound, AllocCmd, DescriptorUpdate,
    GraphPhysicalResourceMap, RenderPassBinding,
};
use crate::replay::{map_complete, replay, replay_passes, ReplayCmd};

verus! {

/// Why a graph cannot execute. Each is a fault of the code that built it.
#[derive(Debug, Copy, Clone, PartialEq, Eq, Structural)]
pub enum GraphError {
    /// A handle names no object of its kind in this graph.
    InvalidHandle,
    /// No pass creates an output render pass.
    NoOutputPass,
    /// More than one output render pass was created.
    MultipleOutputPasses,
    /// The passes the output needs depend on one another in a cycle.
    DependencyCycle,
}

/// Everything one execution issues, in the order to issue it: objects to
/// create, descriptor sets to write, then the commands of the passes.
#[derive(Debug)]
pub struct ExecutionPlan {
    /// Indices of the passes that run, in the order they run.
    pub order: Vec<usize>,
    pub creations: Vec<AllocCmd>,
    pub descriptor_updates: Vec<DescriptorUpdate>,
    pub cmds: Vec<ReplayCmd>,
    /// Clear values, indexed by the render-pass commands.
    pub clear_values: Vec<Vec<ClearValue>>,
    /// The physical object each virtual resource was bound to.
    pub resources: GraphPhysicalResourceMap,
}

/// Number of output render passes among `s`.
pub open spec fn count_outputs(s: Seq<GraphOwnedResource>) -> nat
    decreases s.len(),
{
    if s.len() == 0 {
        0
    } else {
        count_outputs(s.drop_last()) + if s.last() is OutputRenderPass {
            1nat
        } else {
            0nat
        }
    }
}

/// The larger of two numbers.
pub open spec fn max_nat(a: nat, b: nat) -> nat {
    if a >= b {
        a
    } else {
        b
    }
}

/// How one execution of `g` changes the attachment pools: each key's pool
/// grows to the number of attachments of that shape in `g`, and an image is
/// made for each attachment that finds none left.
pub open spec fn attachments_grown(before: RenderGraphCache, after: RenderGraphCache, g: RenderGraph) -> bool {
    &&& forall|k: AttachmentCacheKey| #[trigger] after.attachment_cache.pool_len(k) == max_nat(
        before.attachment_cache.pool_len(k),
        occurrences(opt_views(attachment_keys(g)), k),
    )
    &&& after.attachment_cache.count == before.attachment_cache.count + fresh_count(
        before.attachment_cache,
        opt_views(attachment_keys(g)),
    )
}

/// How one execution of `g` changes the buffer pools.
pub open spec fn buffers_grown(before: RenderGraphCache, after: RenderGraphCache, g: RenderGraph) -> bool {
    &&& forall|k: BufferCacheKey| #[trigger] after.buffer_cache.pool_len(k) == max_nat(
        before.buffer_cache.pool_len(k),
        occurrences(opt_views(buffer_keys(g)), k),
    )
    &&& after.buffer_cache.count == before.buffer_cache.count + fresh_count(
        before.buffer_cache,
        opt_views(buffer_keys(g)),
    )
}

/// Nothing made before is replaced or lost: every pool keeps its objects
/// where they were, and every table keeps its keys at their indices.
pub open spec fn cache_grows(before: RenderGraphCache, after: RenderGraphCache) -> bool {
    &&& after.attachment_cache.keeps(before.attachment_cache)
    &&& after.buffer_cache.keeps(before.buffer_cache)
    &&& after.render_pass_cache.grows_from(before.render_pass_cache)
    &&& after.framebuffer_cache.grows_from(before.framebuffer_cache)
    &&& after.raster_pipeline_cache.grows_from(before.raster_pipeline_cache)
    &&& after.compute_pipeline_cache.grows_from(before.compute_pipeline_cache)
    &&& crate::allocate::heaps_grow(before, after)
}

/// `cmds` creates exactly the objects that `after` has and `before` had
/// not, in this order: attachment images, buffers, descriptor heaps, the new
/// descriptor sets of each heap, render passes, framebuffers, raster
/// pipelines and compute pipelines, each with its index and key.
pub open spec fn creations_exact(before: RenderGraphCache, after: RenderGraphCache, cmds: Seq<AllocCmd>) -> bool {
    let na = after.attachment_cache.count - before.attachment_cache.count;
    let nb = after.buffer_cache.count - before.buffer_cache.count;
    let l0 = before.descriptor_layouts.keys@.len();
    let nl = after.descriptor_layouts.keys@.len() - l0;
    let nh = after.descriptor_heaps@.len() as int;
    let r0 = before.render_pass_cache.keys@.len();
    let nr = after.render_pass_cache.keys@.len() - r0;
    let f0 = before.framebuffer_cache.keys@.len();
    let nf = after.framebuffer_cache.keys@.len() - f0;
    let p0 = before.raster_pipeline_cache.keys@.len();
    let np = after.raster_pipeline_cache.keys@.len() - p0;
    let c0 = before.compute_pipeline_cache.keys@.len();
    let nc = after.compute_pipeline_cache.keys@.len() - c0;
    let bh = na + nb;
    let bs = bh + nl;
    let br = bs + nh;
    let bf = br + nr;
    let bp = bf + nf;
    let bc = bp + np;
    &&& cmds.len() == bc + nc
    &&& forall|j: int|
        0 <= j < na ==> {
            let c = #[trigger] cmds[j];
            &&& c is CreateAttachment
            &&& c->CreateAttachment_index == before.attachment_cache.count + j
            &&& after.attachment_cache.lists(c->CreateAttachment_key, c->CreateAttachment_index)
        }
    &&& forall|j: int|
        0 <= j < nb ==> {
            let c = #[trigger] cmds[na + j];
            &&& c is CreateBuffer
            &&& c->CreateBuffer_index == before.buffer_cache.count + j
            &&& after.buffer_cache.lists(c->CreateBuffer_key, c->CreateBuffer_index)
        }
    &&& forall|x: int|
        0 <= x < nl ==> #[trigger] cmds[bh + x] == (AllocCmd::CreateDescriptorHeap {
            heap: (l0 + x) as usize,
            layout: after.descriptor_layouts.views()[l0 + x],
        })
    &&& forall|h: int|
        0 <= h < nh ==> #[trigger] cmds[bs + h] == (AllocCmd::AllocDescriptors {
            heap: h as usize,
            from: heap_len(before, h) as usize,
            to: heap_len(after, h) as usize,
        })
    &&& forall|x: int|
        0 <= x < nr ==> {
            let c = #[trigger] cmds[br + x];
            &&& c is CreateRenderPass
            &&& c->CreateRenderPass_index == r0 + x
            &&& c->CreateRenderPass_key@ == after.render_pass_cache.views()[r0 + x]
        }
    &&& forall|x: int|
        0 <= x < nf ==> {
            let c = #[trigger] cmds[bf + x];
            &&& c is CreateFramebuffer
            &&& c->CreateFramebuffer_index == f0 + x
            &&& c->CreateFramebuffer_key@ == after.framebuffer_cache.views()[f0 + x]
        }
    &&& forall|x: int|
        0 <= x < np ==> {
            let c = #[trigger] cmds[bp + x];
            &&& c is CreateRasterPipeline
            &&& c->CreateRasterPipeline_index == p0 + x
            &&& c->CreateRasterPipeline_key@ == after.raster_pipeline_cache.views()[p0 + x]
        }
    &&& forall|x: int|
        0 <= x < nc ==> {
            let c = #[trigger] cmds[bc + x];
            &&& c is CreateComputePipeline
            &&& c->CreateComputePipeline_index == c0 + x
            &&& c->CreateComputePipeline_key@ == after.compute_pipeline_cache.views()[c0 + x]
        }
}

fn attachment_key_list(g: &RenderGraph) -> (keys: Vec<Option<AttachmentCacheKey>>)
    ensures
        keys@ == attachment_keys(*g),
{
    let mut keys: Vec<Option<AttachmentCacheKey>> = Vec::new();
    let mut i: usize = 0;
    while i < g.owned_resources.len()
        invariant
            i <= g.owned_resources@.len(),
            keys@ == g.owned_resources@.take(i as int).map_values(|r: GraphOwnedResource| attachment_key_of(r)),
        decreases g.owned_resources@.len() - i,
    {
        let key = match &g.owned_resources[i] {
            GraphOwnedResource::Attachment { width, height, format, usage, load_op: _, store_op: _ } => Some(
                AttachmentCacheKey { width: *width, height: *height, format: *format, usage: *usage },
            ),
            _ => None,
        };
        keys.push(key);
        proof {
            assert(keys@ =~= g.owned_resources@.take(i + 1).map_values(|r: GraphOwnedResource| attachment_key_of(r)));
        }
        i = i + 1;
    }
    proof {
        assert(g.owned_resources@.take(g.owned_resources@.len() as int) =~= g.owned_resources@);
    }
    keys
}

fn buffer_key_list(g: &RenderGraph) -> (keys: Vec<Option<BufferCacheKey>>)
    ensures
        keys@ == buffer_keys(*g),
{
    let mut keys: Vec<Option<BufferCacheKey>> = Vec::new();
    let mut i: usize = 0;
    while i < g.owned_resources.len()
        invariant
            i <= g.owned_resources@.len(),
            keys@ == g.owned_resources@.take(i as int).map_values(|r: GraphOwnedResource| buffer_key_of(r)),
        decreases g.owned_resources@.len() - i,
    {
        let key = match &g.owned_resources[i] {
            GraphOwnedResource::Buffer { size, usage, location } => Some(
                BufferCacheKey { size: *size, usage: *usage, location: *location },
            ),
            _ => None,
        };
        keys.push(key);
        proof {
            assert(keys@ =~= g.owned_resources@.take(i + 1).map_values(|r: GraphOwnedResource| buffer_key_of(r)));
        }
        i = i + 1;
    }
    proof {
        assert(g.owned_resources@.take(g.owned_resources@.len() as int) =~= g.owned_resources@);
    }
    keys
}

impl RenderGraph {
    /// Finds the output render pass: the number of them, and where the
    /// only one is when there is exactly one.
    fn find_output(&self) -> (r: (usize, usize))
        ensures
            r.0 == count_outputs(self.owned_resources@) || (r.0 == 2 && count_outputs(self.owned_resources@) >= 2),
            r.0 <= 2,
            r.0 == 1 ==> r.1 < self.owned_resources@.len() && self.owned_resources@[r.1 as int] is OutputRenderPass
                && forall|j: int| 0 <= j < self.owned_resources@.len() && self.owned_resources@[j] is OutputRenderPass ==> j == r.1,
    {
        let mut count: usize = 0;
        let mut found: usize = 0;
        let mut i: usize = 0;
        while i < self.owned_resources.len()
            invariant
                i <= self.owned_resources@.len(),
                count <= 2,
                count == count_outputs(self.owned_resources@.take(i as int)) || (count == 2 && count_outputs(self.owned_resources@.take(i as int)) >= 2),
                count >= 1 ==> found < i && self.owned_resources@[found as int] is OutputRenderPass,
                count == 1 ==> forall|j: int| 0 <= j < i && self.owned_resources@[j] is OutputRenderPass ==> j == found,
                count == 0 ==> forall|j: int| 0 <= j < i ==> !(self.owned_resources@[j] is OutputRenderPass),
            decreases self.owned_resources@.len() - i,
        {
            proof {
                assert(self.owned_resources@.take(i + 1).drop_last() =~= self.owned_resources@.take(i as int));
            }
            if matches!(self.owned_resources[i], GraphOwnedResource::OutputRenderPass) {
                if count == 0 {
                    found = i;
                }
                if count < 2 {
                    count = count + 1;
                }
            }
            i = i + 1;
        }
        proof {
            assert(self.owned_resources@.take(self.owned_resources@.len() as int) =~= self.owned_resources@);
        }
        (count, found)
    }

    /// Runs the graph against `cache`: finds the passes the output render
    /// pass needs and their order, binds every virtual resource to a pooled
    /// physical object (making the objects that are missing), and lays out
    /// the commands to issue, each read preceded by its barrier. On an error
    /// the cache is left as it was.
    pub fn execute(self, cache: &mut RenderGraphCache) -> (r: Result<ExecutionPlan, GraphError>)
        requires
            old(cache).wf(),
            old(cache).attachment_cache.count + self.owned_resources@.len() < usize::MAX,
            old(cache).buffer_cache.count + self.owned_resources@.len() < usize::MAX,
        ensures
            !graph_valid(self) ==> r == Err::<ExecutionPlan, GraphError>(GraphError::InvalidHandle),
            graph_valid(self) && count_outputs(self.owned_resources@) == 0 ==> r == Err::<ExecutionPlan, GraphError>(
                GraphError::NoOutputPass,
            ),
            graph_valid(self) && count_outputs(self.owned_resources@) >= 2 ==> r == Err::<ExecutionPlan, GraphError>(
                GraphError::MultipleOutputPasses,
            ),
            forall|i: usize|
                i < self.owned_resources@.len() && #[trigger] self.owned_resources@[i as int] is OutputRenderPass
                    && graph_valid(self) && count_outputs(self.owned_resources@) == 1 ==> {
                    &&& (r == Err::<ExecutionPlan, GraphError>(GraphError::DependencyCycle)) == has_cycle_from(
                        self,
                        owner_of(self, i),
                    )
                    &&& !has_cycle_from(self, owner_of(self, i)) ==> r is Ok
                    &&& r is Ok ==> is_execution_order(self, owner_of(self, i), r->Ok_0.order@)
                },
            r is Ok <==> (graph_valid(self) && count_outputs(self.owned_resources@) == 1 && forall|i: usize|
                i < self.owned_resources@.len() && #[trigger] self.owned_resources@[i as int] is OutputRenderPass
                    ==> !has_cycle_from(self, owner_of(self, i))),
            r is Err ==> *final(cache) == *old(cache),
            r is Ok ==> {
                let plan = r->Ok_0;
                &&& final(cache).wf()
                &&& cache_grows(*old(cache), *final(cache))
                &&& attachments_grown(*old(cache), *final(cache), self)
                &&& buffers_grown(*old(cache), *final(cache), self)
                &&& creations_exact(*old(cache), *final(cache), plan.creations@)
                &&& forall|i: usize|
                    i < self.owned_resources@.len() && self.owned_resources@[i as int] is Attachment ==> final(cache).attachment_cache.lists(
                        attachment_key_of(self.owned_resources@[i as int])->Some_0,
                        #[trigger] plan.resources.attachment_map.get(i)->Some_0,
                    )
                &&& forall|i: usize|
                    i < self.owned_resources@.len() && self.owned_resources@[i as int] is Buffer ==> final(cache).buffer_cache.lists(
                        buffer_key_of(self.owned_resources@[i as int])->Some_0,
                        #[trigger] plan.resources.buffer_map.get(i)->Some_0,
                    )
                &&& forall|a: int| 0 <= a < plan.descriptor_updates@.len() ==> set_bound_to(self, plan.resources.descriptor_map, #[trigger] plan.descriptor_updates@[a].descriptor)
                &&& forall|i1: usize, i2: usize|
                    i1 < self.owned_resources@.len() && i2 < self.owned_resources@.len() && self.owned_resources@[i1 as int] is DescriptorSet
                        && self.owned_resources@[i2 as int] is DescriptorSet
                        && self.owned_resources@[i1 as int]->DescriptorSet_descriptor_layout
                        == self.owned_resources@[i2 as int]->DescriptorSet_descriptor_layout && descriptor_view_of(
                        self,
                        plan.resources.attachment_map,
                        plan.resources.buffer_map,
                        self.owned_resources@[i1 as int],
                    ) == descriptor_view_of(self, plan.resources.attachment_map, plan.resources.buffer_map, self.owned_resources@[i2 as int])
                        ==> #[trigger] plan.resources.descriptor_map.get(i1) == #[trigger] plan.resources.descriptor_map.get(i2)
                &&& forall|i1: usize, i2: usize|
                    i1 < self.owned_resources@.len() && i2 < self.owned_resources@.len() && self.owned_resources@[i1 as int] is RenderPass
                        && self.owned_resources@[i2 as int] is RenderPass && render_pass_view_of(self, self.owned_resources@[i1 as int])
                        == render_pass_view_of(self, self.owned_resources@[i2 as int]) && framebuffer_view_of(self, plan.resources.attachment_map, self.owned_resources@[i1 as int], 0)
                        == framebuffer_view_of(self, plan.resources.attachment_map, self.owned_resources@[i2 as int], 0)
                        ==> #[trigger] plan.resources.render_pass_map.get(i1) == #[trigger] plan.resources.render_pass_map.get(i2)
                &&& forall|i1: usize, i2: usize|
                    i1 < self.owned_resources@.len() && i2 < self.owned_resources@.len() && self.owned_resources@[i1 as int] is RenderPass
                        && self.owned_resources@[i2 as int] is RenderPass && render_pass_view_of(self, self.owned_resources@[i1 as int])
                        == render_pass_view_of(self, self.owned_resources@[i2 as int])
                        ==> #[trigger] plan.resources.render_pass_map.get(i1)->Some_0->Physical_render_pass
                        == #[trigger] plan.resources.render_pass_map.get(i2)->Some_0->Physical_render_pass
                &&& forall|i1: usize, i2: usize|
                    i1 < self.owned_resources@.len() && i2 < self.owned_resources@.len() && self.owned_resources@[i1 as int] is RasterPipeline
                        && self.owned_resources@[i2 as int] is RasterPipeline && raster_view_of(self, plan.resources.render_pass_map, self.owned_resources@[i1 as int])
                        == raster_view_of(self, plan.resources.render_pass_map, self.owned_resources@[i2 as int])
                        ==> #[trigger] plan.resources.raster_pipeline_map.get(i1) == #[trigger] plan.resources.raster_pipeline_map.get(i2)
                &&& forall|i1: usize, i2: usize|
                    i1 < self.owned_resources@.len() && i2 < self.owned_resources@.len() && self.owned_resources@[i1 as int] is ComputePipeline
                        && self.owned_resources@[i2 as int] is ComputePipeline && compute_view_of(self, self.owned_resources@[i1 as int])
                        == compute_view_of(self, self.owned_resources@[i2 as int])
                        ==> #[trigger] plan.resources.compute_pipeline_map.get(i1) == #[trigger] plan.resources.compute_pipeline_map.get(i2)
                &&& map_complete(self, plan.resources)
                &&& forall|i: usize|
                    i < self.owned_resources@.len() && self.owned_resources@[i as int] is RenderPass ==> render_pass_bound(
                        self,
                        *final(cache),
                        plan.resources.attachment_map,
                        self.owned_resources@[i as int],
                        #[trigger] plan.resources.render_pass_map.get(i)->Some_0,
                    )
                &&& forall|i: usize|
                    i < self.owned_resources@.len() && self.owned_resources@[i as int] is RasterPipeline ==> #[trigger] plan.resources.raster_pipeline_map.get(i)->Some_0
                        < final(cache).raster_pipeline_cache.keys@.len() && final(cache).raster_pipeline_cache.views()[plan.resources.raster_pipeline_map.get(i)->Some_0 as int]
                        == raster_view_of(self, plan.resources.render_pass_map, self.owned_resources@[i as int])
                &&& forall|i: usize|
                    i < self.owned_resources@.len() && self.owned_resources@[i as int] is ComputePipeline ==> #[trigger] plan.resources.compute_pipeline_map.get(i)->Some_0
                        < final(cache).compute_pipeline_cache.keys@.len() && final(cache).compute_pipeline_cache.views()[plan.resources.compute_pipeline_map.get(i)->Some_0 as int]
                        == compute_view_of(self, self.owned_resources@[i as int])
                &&& forall|i: usize|
                    i < self.owned_resources@.len() && self.owned_resources@[i as int] is OutputRenderPass
                        ==> #[trigger] plan.resources.render_pass_map.get(i) == Some(RenderPassBinding::Output)
                &&& forall|i1: usize, i2: usize|
                    i1 != i2 && crate::valid::is_attachment(self, i1) && crate::valid::is_attachment(self, i2)
                        ==> #[trigger] plan.resources.attachment_map.get(i1) != #[trigger] plan.resources.attachment_map.get(i2)
                &&& forall|i1: usize, i2: usize|
                    i1 != i2 && crate::valid::is_buffer(self, i1) && crate::valid::is_buffer(self, i2)
                        ==> #[trigger] plan.resources.buffer_map.get(i1) != #[trigger] plan.resources.buffer_map.get(i2)
                &&& plan.cmds@ == replay_passes(self, plan.resources, plan.order@)
                &&& plan.clear_values == self.clear_values
                &&& forall|a: int, b: int|
                    0 <= a < b < plan.descriptor_updates@.len() ==> plan.descriptor_updates@[a].descriptor
                        != plan.descriptor_updates@[b].descriptor
                &&& forall|i: usize|
                    i < self.owned_resources@.len() && self.owned_resources@[i as int] is DescriptorSet ==> descriptor_bound(
                        self,
                        *final(cache),
                        plan.resources.attachment_map,
                        plan.resources.buffer_map,
                        self.owned_resources@[i as int],
                        #[trigger] plan.resources.descriptor_map.get(i)->Some_0,
                    )
                &&& forall|a: int| 0 <= a < plan.descriptor_updates@.len() ==> update_matches(*final(cache), #[trigger] plan.descriptor_updates@[a])
                &&& forall|i: usize|
                    i < self.owned_resources@.len() && self.owned_resources@[i as int] is DescriptorSet ==> has_update(
                        plan.descriptor_updates@,
                        #[trigger] plan.resources.descriptor_map.get(i),
                    )
            },
    {
        if !self.validate() {
            return Err(GraphError::InvalidHandle);
        }
        let (count, output) = self.find_output();
        if count == 0 {
            return Err(GraphError::NoOutputPass);
        }
        if count >= 2 {
            return Err(GraphError::MultipleOutputPasses);
        }
        let root = self.resource_to_owning_pass[output].id;
        let order = match self.resolve_pass_dependencies(root) {
            Some(order) => order,
            None => {
                return Err(GraphError::DependencyCycle);
            },
        };
        proof {
            assert forall|i: int| 0 <= i < order@.len() implies #[trigger] order@[i] < self.passes@.len() by {
                reveal(crate::resolve::needed);
                let t = Set::new(|p: int| 0 <= p < self.passes@.len());
                assert(crate::resolve::deps_closed(self, t)) by {
                    reveal(crate::resolve::depends_on);
                }
                assert(crate::resolve::needed(self, root as int, order@[i] as int));
                assert(t.contains(order@[i] as int));
            }
        }
        let layouts0 = cache.descriptor_layouts.keys.len();
        let heaps0 = crate::allocate::heap_lengths(cache);
        let render_passes0 = cache.render_pass_cache.keys.len();
        let framebuffers0 = cache.framebuffer_cache.keys.len();
        let raster0 = cache.raster_pipeline_cache.keys.len();
        let compute0 = cache.compute_pipeline_cache.keys.len();
        let mut creations: Vec<AllocCmd> = Vec::new();
        let attachment_keys_v = attachment_key_list(&self);
        let (attachment_map, made) = alloc_pooled(&mut cache.attachment_cache, &attachment_keys_v);
        let ghost made_a = made@;
        let mut k: usize = 0;
        while k < made.len()
            invariant
                k <= made@.len(),
                creations@.len() == k,
                forall|j: int| 0 <= j < k ==> #[trigger] creations@[j] == (AllocCmd::CreateAttachment { index: made@[j].0, key: made@[j].1 }),
            decreases made@.len() - k,
        {
            let (index, key) = made[k];
            creations.push(AllocCmd::CreateAttachment { index, key });
            k = k + 1;
        }
        let ghost na = creations@.len();
        let ghost pool_a = cache.attachment_cache;
        let buffer_keys_v = buffer_key_list(&self);
        let (buffer_map, made) = alloc_pooled(&mut cache.buffer_cache, &buffer_keys_v);
        let ghost prefix = creations@;
        let mut k: usize = 0;
        while k < made.len()
            invariant
                k <= made@.len(),
                creations@.len() == prefix.len() + k,
                forall|j: int| 0 <= j < prefix.len() ==> #[trigger] creations@[j] == prefix[j],
                forall|j: int| 0 <= j < k ==> #[trigger] creations@[prefix.len() + j] == (AllocCmd::CreateBuffer { index: made@[j].0, key: made@[j].1 }),
            decreases made@.len() - k,
        {
            let (index, key) = made[k];
            creations.push(AllocCmd::CreateBuffer { index, key });
            k = k + 1;
        }
        let ghost made_b = made@;
        let ghost pool_b = cache.buffer_cache;
        let ghost after_pools = creations@;
        proof {
            assert forall|i: usize| crate::valid::is_attachment(self, i) implies attachment_map.get(i) is Some by {
                assert(attachment_keys_v@[i as int] == attachment_key_of(self.owned_resources@[i as int]));
            }
            assert forall|i: usize| crate::valid::is_buffer(self, i) implies buffer_map.get(i) is Some by {
                assert(buffer_keys_v@[i as int] == buffer_key_of(self.owned_resources@[i as int]));
            }
            assert forall|i: usize|
                i < self.owned_resources@.len() && self.owned_resources@[i as int] is Attachment implies cache.attachment_cache.lists(
                    attachment_key_of(self.owned_resources@[i as int])->Some_0,
                    #[trigger] attachment_map.get(i)->Some_0,
                ) by {
                assert(attachment_keys_v@[i as int] == attachment_key_of(self.owned_resources@[i as int]));
                let k = attachment_key_of(self.owned_resources@[i as int])->Some_0;
                let o = occurrences(opt_views(attachment_keys_v@).take(i as int), k);
                assert(cache.attachment_cache.slot(k, o as int) == attachment_map.get(i)->Some_0);
            }
            assert forall|i: usize|
                i < self.owned_resources@.len() && self.owned_resources@[i as int] is Buffer implies cache.buffer_cache.lists(
                    buffer_key_of(self.owned_resources@[i as int])->Some_0,
                    #[trigger] buffer_map.get(i)->Some_0,
                ) by {
                assert(buffer_keys_v@[i as int] == buffer_key_of(self.owned_resources@[i as int]));
                let k = buffer_key_of(self.owned_resources@[i as int])->Some_0;
                let o = occurrences(opt_views(buffer_keys_v@).take(i as int), k);
                assert(cache.buffer_cache.slot(k, o as int) == buffer_map.get(i)->Some_0);
            }
            assert forall|i1: usize, i2: usize|
                i1 != i2 && crate::valid::is_attachment(self, i1) && crate::valid::is_attachment(self, i2)
                    implies #[trigger] attachment_map.get(i1) != #[trigger] attachment_map.get(i2) by {
                assert(attachment_keys_v@[i1 as int] == attachment_key_of(self.owned_resources@[i1 as int]));
                assert(attachment_keys_v@[i2 as int] == attachment_key_of(self.owned_resources@[i2 as int]));
            }
            assert forall|i1: usize, i2: usize|
                i1 != i2 && crate::valid::is_buffer(self, i1) && crate::valid::is_buffer(self, i2)
                    implies #[trigger] buffer_map.get(i1) != #[trigger] buffer_map.get(i2) by {
                assert(buffer_keys_v@[i1 as int] == buffer_key_of(self.owned_resources@[i1 as int]));
                assert(buffer_keys_v@[i2 as int] == buffer_key_of(self.owned_resources@[i2 as int]));
            }
        }
        let (descriptor_map, descriptor_updates) = crate::allocate::alloc_descriptors(
            &self,
            cache,
            &attachment_map,
            &buffer_map,
        );
        let ghost cache_d = *cache;
        let render_pass_map = crate::allocate::alloc_render_passes(&self, cache, &attachment_map);
        let ghost cache_r = *cache;
        let raster_pipeline_map = crate::allocate::alloc_raster_pipelines(&self, cache, &render_pass_map);
        let ghost cache_p = *cache;
        let compute_pipeline_map = crate::allocate::alloc_compute_pipelines(&self, cache);
        proof {
            crate::allocate::lemma_heaps_grow_trans(cache_d, cache_r, cache_p);
            crate::allocate::lemma_heaps_grow_trans(cache_d, cache_p, *cache);
            assert forall|i: usize|
                i < self.owned_resources@.len() && self.owned_resources@[i as int] is DescriptorSet implies descriptor_bound(
                    self,
                    *cache,
                    attachment_map,
                    buffer_map,
                    self.owned_resources@[i as int],
                    #[trigger] descriptor_map.get(i)->Some_0,
                ) by {
                crate::allocate::lemma_heaps_grow_keeps_bindings(
                    self,
                    cache_d,
                    *cache,
                    attachment_map,
                    buffer_map,
                    self.owned_resources@[i as int],
                    descriptor_map.get(i)->Some_0,
                );
            }
            assert forall|a: int| 0 <= a < descriptor_updates@.len() implies update_matches(*cache, #[trigger] descriptor_updates@[a]) by {
                crate::allocate::lemma_heaps_grow_keeps_updates(cache_d, *cache, descriptor_updates@[a]);
            }
            assert(crate::allocate::heaps_grow(*old(cache), cache_d));
            crate::allocate::lemma_heaps_grow_trans(*old(cache), cache_d, *cache);
            assert(cache.attachment_cache.keeps(old(cache).attachment_cache));
            assert(cache.buffer_cache.keeps(old(cache).buffer_cache));
            assert(cache.render_pass_cache.grows_from(old(cache).render_pass_cache));
            assert(cache.framebuffer_cache.grows_from(old(cache).framebuffer_cache));
            assert(cache.raster_pipeline_cache.grows_from(old(cache).raster_pipeline_cache));
            assert(cache.compute_pipeline_cache.grows_from(old(cache).compute_pipeline_cache));
        }
        crate::allocate::emit_descriptor_heaps(&cache.descriptor_layouts, layouts0, &mut creations);
        crate::allocate::emit_descriptor_sets(&heaps0, cache, &mut creations);
        crate::allocate::emit_render_passes(&cache.render_pass_cache, render_passes0, &mut creations);
        crate::allocate::emit_framebuffers(&cache.framebuffer_cache, framebuffers0, &mut creations);
        crate::allocate::emit_raster_pipelines(&cache.raster_pipeline_cache, raster0, &mut creations);
        crate::allocate::emit_compute_pipelines(&cache.compute_pipeline_cache, compute0, &mut creations);
        let resources = GraphPhysicalResourceMap {
            attachment_map,
            buffer_map,
            descriptor_map,
            render_pass_map,
            raster_pipeline_map,
            compute_pipeline_map,
        };
        let cmds = replay(&self, &resources, &order);
        let ghost g = self;
        let RenderGraph { passes: _, owned_resources: _, resource_to_owning_pass: _, imported_resources: _, clear_values } = self;
        Ok(ExecutionPlan { order, creations, descriptor_updates, cmds, clear_values, resources })
    }
}

} // verus!
