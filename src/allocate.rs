use vstd::prelude::*;
use crate::resources::{AttachmentDescription, ImageLayout, VertexAttributeDescriptionBinding};
use crate::graph::{
    DescriptorSetInfoId, GraphImportedResource, GraphOwnedResource, MutableGraphAttachmentHandle,
    GraphOwnedResourceDescriptorBinding, RenderGraph,
};
use crate::valid::{graph_valid, is_attachment, is_imported_shader};
use crate::pool::{key_views, CacheKey, KeyTable, PhysicalPool, VirtualToPhysicalResourceMap};
use crate::cache::{
    vec_copy, AttachmentCacheKey, BufferCacheKey, ComputePipelineCacheKey, DescriptorHandle,
    DescriptorHeapCacheKey, DescriptorHeapCacheKeyBinding, FramebufferCacheKey,
    RasterPipelineCacheKey, RasterPipelineState, RenderGraphCache, RenderPassCacheKey, RenderTarget,
};

verus! {

/// A device object to create before the commands of an execution replay.
#[derive(Debug)]
pub enum AllocCmd {
    /// An attachment image of the key's shape; its usage also has the
    /// attachment bit.
    CreateAttachment { index: usize, key: AttachmentCacheKey },
    CreateBuffer { index: usize, key: BufferCacheKey },
    CreateDescriptorHeap { heap: usize, layout: DescriptorSetInfoId },
    /// Allocates the descriptor sets of heap `heap` numbered `from` up to
    /// `to`, which are new in this execution. Heaps here have no fixed size:
    /// the device side provides as many sets as `to` asks for.
    AllocDescriptors { heap: usize, from: usize, to: usize },
    CreateRenderPass { index: usize, key: RenderPassCacheKey },
    CreateFramebuffer { index: usize, key: FramebufferCacheKey },
    CreateRasterPipeline { index: usize, key: RasterPipelineCacheKey },
    CreateComputePipeline { index: usize, key: ComputePipelineCacheKey },
}

/// Contents to write into a physical descriptor set.
#[derive(Debug)]
pub struct DescriptorUpdate {
    pub descriptor: DescriptorHandle,
    pub layout: DescriptorSetInfoId,
    pub bindings: Vec<(u32, DescriptorHeapCacheKeyBinding)>,
}

/// Where a render pass draws: the swapchain image, or a physical render
/// pass with its framebuffer.
#[derive(Debug, Copy, Clone, PartialEq, Eq, Structural)]
pub enum RenderPassBinding {
    Output,
    Physical { render_pass: usize, framebuffer: usize },
}

/// The physical object each virtual resource of one execution is bound to.
#[derive(Debug)]
pub struct GraphPhysicalResourceMap {
    pub attachment_map: VirtualToPhysicalResourceMap<usize>,
    pub buffer_map: VirtualToPhysicalResourceMap<usize>,
    pub descriptor_map: VirtualToPhysicalResourceMap<DescriptorHandle>,
    pub render_pass_map: VirtualToPhysicalResourceMap<RenderPassBinding>,
    pub raster_pipeline_map: VirtualToPhysicalResourceMap<usize>,
    pub compute_pipeline_map: VirtualToPhysicalResourceMap<usize>,
}

/// The pool key of an attachment resource.
pub open spec fn attachment_key_of(r: GraphOwnedResource) -> Option<AttachmentCacheKey> {
    match r {
        GraphOwnedResource::Attachment { width, height, format, usage, load_op: _, store_op: _ } => Some(
            AttachmentCacheKey { width, height, format, usage },
        ),
        _ => None,
    }
}

/// The pool key of a buffer resource.
pub open spec fn buffer_key_of(r: GraphOwnedResource) -> Option<BufferCacheKey> {
    match r {
        GraphOwnedResource::Buffer { size, usage, location } => Some(BufferCacheKey { size, usage, location }),
        _ => None,
    }
}

pub open spec fn attachment_keys(g: RenderGraph) -> Seq<Option<AttachmentCacheKey>> {
    g.owned_resources@.map_values(|r: GraphOwnedResource| attachment_key_of(r))
}

pub open spec fn buffer_keys(g: RenderGraph) -> Seq<Option<BufferCacheKey>> {
    g.owned_resources@.map_values(|r: GraphOwnedResource| buffer_key_of(r))
}

/// Views of optional keys.
pub open spec fn opt_views<K: View>(ks: Seq<Option<K>>) -> Seq<Option<K::V>> {
    ks.map_values(|o: Option<K>| match o {
        Some(k) => Some(k@),
        None => None,
    })
}

/// How many entries of `ks` are `k`.
pub open spec fn occurrences<V>(ks: Seq<Option<V>>, k: V) -> nat
    decreases ks.len(),
{
    if ks.len() == 0 {
        0
    } else {
        occurrences(ks.drop_last(), k) + if ks.last() == Some(k) {
            1nat
        } else {
            0nat
        }
    }
}

/// How many of the requests `ks`, served in order from `pool`, find no
/// object left for their key and need a new one.
pub open spec fn fresh_count<K: CacheKey>(pool: PhysicalPool<K>, ks: Seq<Option<K::V>>) -> nat
    decreases ks.len(),
{
    if ks.len() == 0 {
        0
    } else {
        fresh_count(pool, ks.drop_last()) + match ks.last() {
            Some(k) => if occurrences(ks.drop_last(), k) >= pool.pool_len(k) {
                1nat
            } else {
                0nat
            },
            None => 0nat,
        }
    }
}

pub proof fn lemma_fresh_count_bound<K: CacheKey>(pool: PhysicalPool<K>, ks: Seq<Option<K::V>>)
    ensures
        fresh_count(pool, ks) <= ks.len(),
    decreases ks.len(),
{
    if ks.len() > 0 {
        lemma_fresh_count_bound(pool, ks.drop_last());
    }
}

/// Counts the requests for `key` among the first `i` of `keys`.
fn count_before<K: CacheKey + Copy>(keys: &Vec<Option<K>>, i: usize, key: &K) -> (c: usize)
    requires
        i <= keys@.len(),
    ensures
        c == occurrences(opt_views(keys@).take(i as int), key@),
{
    let ghost kv = opt_views(keys@);
    let mut c: usize = 0;
    let mut j: usize = 0;
    while j < i
        invariant
            j <= i,
            i <= keys@.len(),
            kv == opt_views(keys@),
            c == occurrences(kv.take(j as int), key@),
            c <= j,
        decreases i - j,
    {
        proof {
            assert(kv.take(j + 1).drop_last() =~= kv.take(j as int));
        }
        match keys[j] {
            Some(k) => {
                if k.same_key(key) {
                    c = c + 1;
                }
            },
            None => {},
        }
        j = j + 1;
    }
    c
}

/// Binds each request of `keys` in order to an object of its key's pool:
/// the `n`th request for a key gets the pool's `n`th object, made when the
/// pool has fewer. Returns the bindings and the objects made, with their keys.
pub fn alloc_pooled<K: CacheKey + Copy>(pool: &mut PhysicalPool<K>, keys: &Vec<Option<K>>) -> (r: (
    VirtualToPhysicalResourceMap<usize>,
    Vec<(usize, K)>,
))
    requires
        old(pool).wf(),
        old(pool).count + keys@.len() < usize::MAX,
    ensures
        final(pool).wf(),
        forall|k: K::V| #[trigger] final(pool).pool_len(k) == if old(pool).pool_len(k) >= occurrences(opt_views(keys@), k) {
            old(pool).pool_len(k)
        } else {
            occurrences(opt_views(keys@), k)
        },
        final(pool).count == old(pool).count + fresh_count(*old(pool), opt_views(keys@)),
        final(pool).keeps(*old(pool)),
        r.1@.len() == fresh_count(*old(pool), opt_views(keys@)),
        forall|j: int| 0 <= j < r.1@.len() ==> #[trigger] r.1@[j].0 == old(pool).count + j && final(pool).lists(r.1@[j].1@, r.1@[j].0),
        forall|i: usize| i < keys@.len() ==> (r.0.get(i) is Some <==> keys@[i as int] is Some),
        forall|i: usize|
            i < keys@.len() && keys@[i as int] is Some ==> occurrences(opt_views(keys@).take(i as int), keys@[i as int]->Some_0@)
                < final(pool).pool_len(keys@[i as int]->Some_0@) && #[trigger] r.0.get(i) == Some(
                final(pool).slot(
                    keys@[i as int]->Some_0@,
                    occurrences(opt_views(keys@).take(i as int), keys@[i as int]->Some_0@) as int,
                ),
            ),
        forall|i1: usize, i2: usize|
            i1 < keys@.len() && i2 < keys@.len() && i1 != i2 && keys@[i1 as int] is Some && keys@[i2 as int] is Some
                ==> #[trigger] r.0.get(i1) != #[trigger] r.0.get(i2),
{
    let ghost kv = opt_views(keys@);
    let mut map = VirtualToPhysicalResourceMap::new();
    let mut created: Vec<(usize, K)> = Vec::new();
    let mut i: usize = 0;
    while i < keys.len()
        invariant
            i <= keys@.len(),
            kv == opt_views(keys@),
            pool.wf(),
            old(pool).count + keys@.len() < usize::MAX,
            forall|k: K::V| #[trigger] pool.pool_len(k) == if old(pool).pool_len(k) >= occurrences(kv.take(i as int), k) {
                old(pool).pool_len(k)
            } else {
                occurrences(kv.take(i as int), k)
            },
            pool.count == old(pool).count + fresh_count(*old(pool), kv.take(i as int)),
            pool.keeps(*old(pool)),
            created@.len() == fresh_count(*old(pool), kv.take(i as int)),
            forall|j: int| 0 <= j < created@.len() ==> #[trigger] created@[j].0 == old(pool).count + j && pool.lists(created@[j].1@, created@[j].0),
            forall|h: usize| h < i ==> (map.get(h) is Some <==> keys@[h as int] is Some),
            forall|h: usize| h >= i ==> map.get(h) is None,
            forall|h: usize|
                h < i && keys@[h as int] is Some ==> occurrences(kv.take(h as int), keys@[h as int]->Some_0@)
                    < pool.pool_len(keys@[h as int]->Some_0@) && #[trigger] map.get(h) == Some(
                    pool.slot(keys@[h as int]->Some_0@, occurrences(kv.take(h as int), keys@[h as int]->Some_0@) as int),
                ),
        decreases keys@.len() - i,
    {
        let ghost prev = kv.take(i as int);
        proof {
            assert(kv.take(i + 1).drop_last() =~= prev);
            lemma_fresh_count_bound(*old(pool), prev);
        }
        match keys[i] {
            Some(key) => {
                let j = count_before(keys, i, &key);
                proof {
                    assert(kv.take(i + 1).last() == Some(key@));
                }
                let ghost pool0 = *pool;
                let ghost map0 = map;
                let ghost created0 = created@;
                let (phys, made) = pool.get_or_grow(key, j);
                if made {
                    created.push((phys, key));
                }
                proof {
                    assert forall|jj: int| 0 <= jj < created@.len() implies #[trigger] created@[jj].0 == old(pool).count + jj && pool.lists(created@[jj].1@, created@[jj].0) by {
                        if jj < created0.len() {
                            let m = choose|m: int| 0 <= m < pool0.pool_len(created0[jj].1@) && pool0.slot(created0[jj].1@, m) == created0[jj].0;
                            assert(pool.pool_len(created0[jj].1@) >= pool0.pool_len(created0[jj].1@));
                            assert(pool.slot(created0[jj].1@, m) == pool0.slot(created0[jj].1@, m));
                        } else {
                            assert(pool.slot(key@, j as int) == phys);
                        }
                    }
                }
                map.map_physical(i, phys);
                proof {
                    pool.lemma_keeps_trans(pool0, *old(pool));
                    assert forall|h: usize|
                        h < i + 1 && keys@[h as int] is Some implies occurrences(kv.take(h as int), keys@[h as int]->Some_0@)
                            < pool.pool_len(keys@[h as int]->Some_0@) && #[trigger] map.get(h) == Some(
                            pool.slot(keys@[h as int]->Some_0@, occurrences(kv.take(h as int), keys@[h as int]->Some_0@) as int),
                        ) by {
                        if h < i {
                            let kh = keys@[h as int]->Some_0@;
                            let oh = occurrences(kv.take(h as int), kh);
                            assert(map.get(h) == map0.get(h));
                            assert(pool.pool_len(kh) >= pool0.pool_len(kh));
                            assert(pool.slot(kh, oh as int) == pool0.slot(kh, oh as int));
                        }
                    }
                }
                proof {
                    assert forall|k: K::V| #[trigger] pool.pool_len(k) == if old(pool).pool_len(k) >= occurrences(kv.take(i + 1), k) {
                        old(pool).pool_len(k)
                    } else {
                        occurrences(kv.take(i + 1), k)
                    } by {
                        if k != key@ {
                            assert(occurrences(kv.take(i + 1), k) == occurrences(prev, k));
                        }
                    }
                }
            },
            None => {
                proof {
                    assert forall|k: K::V| occurrences(kv.take(i + 1), k) == occurrences(prev, k) by {}
                }
            },
        }
        i = i + 1;
    }
    proof {
        assert(kv.take(keys@.len() as int) =~= kv);
        assert forall|i1: usize, i2: usize|
            i1 < keys@.len() && i2 < keys@.len() && i1 != i2 && keys@[i1 as int] is Some && keys@[i2 as int] is Some
                implies #[trigger] map.get(i1) != #[trigger] map.get(i2) by {
            let k1 = keys@[i1 as int]->Some_0@;
            let k2 = keys@[i2 as int]->Some_0@;
            let o1 = occurrences(kv.take(i1 as int), k1);
            let o2 = occurrences(kv.take(i2 as int), k2);
            if k1 == k2 {
                if i1 < i2 {
                    lemma_occurrences_grow(kv, k1, i1 as int, i2 as int);
                } else {
                    lemma_occurrences_grow(kv, k1, i2 as int, i1 as int);
                }
            }
            pool.lemma_slots_distinct(k1, o1 as int, k2, o2 as int);
        }
    }
    (map, created)
}

/// A request for `k` at position `i1` is counted before any later position.
proof fn lemma_occurrences_grow<V>(ks: Seq<Option<V>>, k: V, i1: int, i2: int)
    requires
        0 <= i1 < i2 <= ks.len(),
        ks[i1] == Some(k),
    ensures
        occurrences(ks.take(i2), k) > occurrences(ks.take(i1), k),
    decreases i2 - i1,
{
    assert(ks.take(i2).drop_last() =~= ks.take(i2 - 1));
    if i2 - 1 == i1 {
        assert(ks.take(i2).last() == Some(k));
    } else {
        lemma_occurrences_grow(ks, k, i1, i2 - 1);
    }
}

/// The heap of `layout`, made with a `CreateDescriptorHeap` when new.
fn register_layout(cache: &mut RenderGraphCache, layout: DescriptorSetInfoId) -> (heap: usize)
    requires
        old(cache).wf(),
    ensures
        final(cache).wf(),
        heap < final(cache).descriptor_heaps@.len(),
        final(cache).descriptor_layouts.views()[heap as int] == layout,
        heaps_grow(*old(cache), *final(cache)),
        forall|h: int| 0 <= h < old(cache).descriptor_heaps@.len() ==> #[trigger] final(cache).descriptor_heaps@[h] == old(cache).descriptor_heaps@[h],
        final(cache).attachment_cache == old(cache).attachment_cache,
        final(cache).buffer_cache == old(cache).buffer_cache,
        final(cache).render_pass_cache == old(cache).render_pass_cache,
        final(cache).framebuffer_cache == old(cache).framebuffer_cache,
        final(cache).raster_pipeline_cache == old(cache).raster_pipeline_cache,
        final(cache).compute_pipeline_cache == old(cache).compute_pipeline_cache,
{
    let (heap, created) = cache.descriptor_layouts.intern(layout);
    if created {
        cache.descriptor_heaps.push(KeyTable::new());
    }
    heap
}

/// `new` holds every descriptor layout, heap and descriptor set of `old`
/// at the same index.
pub open spec fn heaps_grow(old: RenderGraphCache, new: RenderGraphCache) -> bool {
    &&& new.descriptor_layouts.grows_from(old.descriptor_layouts)
    &&& new.descriptor_heaps@.len() >= old.descriptor_heaps@.len()
    &&& forall|h: int| 0 <= h < old.descriptor_heaps@.len() ==> #[trigger] new.descriptor_heaps@[h].grows_from(old.descriptor_heaps@[h])
}

pub proof fn lemma_heaps_grow_trans(a: RenderGraphCache, b: RenderGraphCache, c: RenderGraphCache)
    requires
        heaps_grow(a, b),
        heaps_grow(b, c),
    ensures
        heaps_grow(a, c),
{
    assert forall|j: int| 0 <= j < a.descriptor_layouts.keys@.len() implies #[trigger] c.descriptor_layouts.views()[j]
        == a.descriptor_layouts.views()[j] by {
        assert(b.descriptor_layouts.views()[j] == a.descriptor_layouts.views()[j]);
    }
    assert forall|h: int| 0 <= h < a.descriptor_heaps@.len() implies #[trigger] c.descriptor_heaps@[h].grows_from(a.descriptor_heaps@[h]) by {
        assert(b.descriptor_heaps@[h].grows_from(a.descriptor_heaps@[h]));
        assert(c.descriptor_heaps@[h].grows_from(b.descriptor_heaps@[h]));
        assert forall|j: int| 0 <= j < a.descriptor_heaps@[h].keys@.len() implies #[trigger] c.descriptor_heaps@[h].views()[j]
            == a.descriptor_heaps@[h].views()[j] by {
            assert(b.descriptor_heaps@[h].views()[j] == a.descriptor_heaps@[h].views()[j]);
        }
    }
}

/// In a table without repeated keys, equal keys sit at one index.
pub proof fn lemma_same_key_same_index<K: CacheKey>(t: KeyTable<K>, a: int, b: int)
    requires
        t.distinct(),
        0 <= a < t.keys@.len(),
        0 <= b < t.keys@.len(),
        t.views()[a] == t.views()[b],
    ensures
        a == b,
{
    if a < b {
        assert(t.views()[a] != t.views()[b]);
    } else if b < a {
        assert(t.views()[b] != t.views()[a]);
    }
}

/// Two descriptor sets of one layout with equal resolved bindings are bound
/// to one physical descriptor set.
pub proof fn lemma_same_key_same_descriptor(
    g: RenderGraph,
    cache: RenderGraphCache,
    attachment_map: VirtualToPhysicalResourceMap<usize>,
    buffer_map: VirtualToPhysicalResourceMap<usize>,
    r1: GraphOwnedResource,
    r2: GraphOwnedResource,
    d1: DescriptorHandle,
    d2: DescriptorHandle,
)
    requires
        cache.wf(),
        descriptor_bound(g, cache, attachment_map, buffer_map, r1, d1),
        descriptor_bound(g, cache, attachment_map, buffer_map, r2, d2),
        r1->DescriptorSet_descriptor_layout == r2->DescriptorSet_descriptor_layout,
        descriptor_view_of(g, attachment_map, buffer_map, r1) == descriptor_view_of(g, attachment_map, buffer_map, r2),
    ensures
        d1 == d2,
{
    lemma_same_key_same_index(cache.descriptor_layouts, d1.heap as int, d2.heap as int);
    assert(cache.descriptor_heaps@[d1.heap as int].distinct());
    lemma_same_key_same_index(cache.descriptor_heaps@[d1.heap as int], d1.index as int, d2.index as int);
}

pub proof fn lemma_heaps_grow_keeps_bindings(
    g: RenderGraph,
    a: RenderGraphCache,
    b: RenderGraphCache,
    attachment_map: VirtualToPhysicalResourceMap<usize>,
    buffer_map: VirtualToPhysicalResourceMap<usize>,
    r: GraphOwnedResource,
    d: DescriptorHandle,
)
    requires
        heaps_grow(a, b),
        descriptor_bound(g, a, attachment_map, buffer_map, r, d),
    ensures
        descriptor_bound(g, b, attachment_map, buffer_map, r, d),
{
    assert(b.descriptor_heaps@[d.heap as int].grows_from(a.descriptor_heaps@[d.heap as int]));
}

pub proof fn lemma_heaps_grow_keeps_updates(a: RenderGraphCache, b: RenderGraphCache, u: DescriptorUpdate)
    requires
        heaps_grow(a, b),
        update_matches(a, u),
    ensures
        update_matches(b, u),
{
    assert(b.descriptor_heaps@[u.descriptor.heap as int].grows_from(a.descriptor_heaps@[u.descriptor.heap as int]));
}

/// The key binding of descriptor binding `b`: an imported object by its raw
/// identity, a pooled one by the physical index it is bound to.
pub open spec fn key_binding_of(
    g: RenderGraph,
    attachment_map: VirtualToPhysicalResourceMap<usize>,
    buffer_map: VirtualToPhysicalResourceMap<usize>,
    b: GraphOwnedResourceDescriptorBinding,
) -> DescriptorHeapCacheKeyBinding {
    match b {
        GraphOwnedResourceDescriptorBinding::ImportedBuffer(h) => DescriptorHeapCacheKeyBinding::ImportedBuffer {
            buffer: g.imported_resources@[h.id as int]->Buffer_raw,
            size: g.imported_resources@[h.id as int]->Buffer_size,
        },
        GraphOwnedResourceDescriptorBinding::ImportedTexture(h) => DescriptorHeapCacheKeyBinding::ImportedTexture {
            image: g.imported_resources@[h.id as int]->Texture_image,
            sampler: g.imported_resources@[h.id as int]->Texture_sampler,
            image_view: g.imported_resources@[h.id as int]->Texture_image_view,
        },
        GraphOwnedResourceDescriptorBinding::Buffer(h) => DescriptorHeapCacheKeyBinding::Buffer {
            buffer: buffer_map.get(h.id)->Some_0,
        },
        GraphOwnedResourceDescriptorBinding::MutableBuffer(h) => DescriptorHeapCacheKeyBinding::Buffer {
            buffer: buffer_map.get(h.id)->Some_0,
        },
        GraphOwnedResourceDescriptorBinding::Attachment(h) => DescriptorHeapCacheKeyBinding::Attachment {
            attachment: attachment_map.get(h.id)->Some_0,
            layout: h.final_layout,
        },
    }
}

/// The resolved bindings of descriptor set resource `r`.
pub open spec fn descriptor_view_of(
    g: RenderGraph,
    attachment_map: VirtualToPhysicalResourceMap<usize>,
    buffer_map: VirtualToPhysicalResourceMap<usize>,
    r: GraphOwnedResource,
) -> Seq<(u32, DescriptorHeapCacheKeyBinding)> {
    r->DescriptorSet_bindings@.map_values(
        |b: (u32, GraphOwnedResourceDescriptorBinding)| (b.0, key_binding_of(g, attachment_map, buffer_map, b.1)),
    )
}

/// `d` is a descriptor set of `cache`, in the heap of `r`'s layout, whose
/// key is `r`'s resolved bindings.
pub open spec fn descriptor_bound(
    g: RenderGraph,
    cache: RenderGraphCache,
    attachment_map: VirtualToPhysicalResourceMap<usize>,
    buffer_map: VirtualToPhysicalResourceMap<usize>,
    r: GraphOwnedResource,
    d: DescriptorHandle,
) -> bool {
    &&& d.heap < cache.descriptor_heaps@.len()
    &&& d.heap < cache.descriptor_layouts.keys@.len()
    &&& cache.descriptor_layouts.views()[d.heap as int] == r->DescriptorSet_descriptor_layout
    &&& d.index < cache.descriptor_heaps@[d.heap as int].keys@.len()
    &&& cache.descriptor_heaps@[d.heap as int].views()[d.index as int] == descriptor_view_of(g, attachment_map, buffer_map, r)
}

/// Update `u` writes the key of its descriptor set, in the heap of its layout.
pub open spec fn update_matches(cache: RenderGraphCache, u: DescriptorUpdate) -> bool {
    &&& u.descriptor.heap < cache.descriptor_heaps@.len()
    &&& u.descriptor.heap < cache.descriptor_layouts.keys@.len()
    &&& cache.descriptor_layouts.views()[u.descriptor.heap as int] == u.layout
    &&& u.descriptor.index < cache.descriptor_heaps@[u.descriptor.heap as int].keys@.len()
    &&& cache.descriptor_heaps@[u.descriptor.heap as int].views()[u.descriptor.index as int] == u.bindings@
}

/// The key binding of one descriptor binding, with pooled objects resolved
/// to their physical indices.
fn key_binding(
    g: &RenderGraph,
    attachment_map: &VirtualToPhysicalResourceMap<usize>,
    buffer_map: &VirtualToPhysicalResourceMap<usize>,
    b: GraphOwnedResourceDescriptorBinding,
) -> (k: DescriptorHeapCacheKeyBinding)
    requires
        crate::valid::binding_valid(*g, b),
        forall|i: usize| crate::valid::is_attachment(*g, i) ==> attachment_map.get(i) is Some,
        forall|i: usize| crate::valid::is_buffer(*g, i) ==> buffer_map.get(i) is Some,
    ensures
        k == key_binding_of(*g, *attachment_map, *buffer_map, b),
{
    match b {
        GraphOwnedResourceDescriptorBinding::ImportedBuffer(h) => match g.imported_resources[h.id] {
            GraphImportedResource::Buffer { raw, size } => DescriptorHeapCacheKeyBinding::ImportedBuffer { buffer: raw, size },
            _ => {
                proof {
                    assert(false);
                }
                DescriptorHeapCacheKeyBinding::Buffer { buffer: 0 }
            },
        },
        GraphOwnedResourceDescriptorBinding::ImportedTexture(h) => match g.imported_resources[h.id] {
            GraphImportedResource::Texture { image, sampler, image_view } => DescriptorHeapCacheKeyBinding::ImportedTexture {
                image,
                sampler,
                image_view,
            },
            _ => {
                proof {
                    assert(false);
                }
                DescriptorHeapCacheKeyBinding::Buffer { buffer: 0 }
            },
        },
        GraphOwnedResourceDescriptorBinding::Buffer(h) => DescriptorHeapCacheKeyBinding::Buffer {
            buffer: buffer_map.get_physical(h.id),
        },
        GraphOwnedResourceDescriptorBinding::MutableBuffer(h) => DescriptorHeapCacheKeyBinding::Buffer {
            buffer: buffer_map.get_physical(h.id),
        },
        GraphOwnedResourceDescriptorBinding::Attachment(h) => DescriptorHeapCacheKeyBinding::Attachment {
            attachment: attachment_map.get_physical(h.id),
            layout: h.final_layout,
        },
    }
}

/// Some update in `updates` is for descriptor set `d`.
pub open spec fn has_update(updates: Seq<DescriptorUpdate>, d: Option<DescriptorHandle>) -> bool {
    exists|a: int| 0 <= a < updates.len() && Some(updates[a].descriptor) == d
}

/// Some descriptor set resource of `g` is bound to `d` in `m`.
#[verifier::opaque]
pub open spec fn set_bound_to(g: RenderGraph, m: VirtualToPhysicalResourceMap<DescriptorHandle>, d: DescriptorHandle) -> bool {
    exists|i: usize|
        i < g.owned_resources@.len() && g.owned_resources@[i as int] is DescriptorSet && #[trigger] m.get(i) == Some(d)
}

/// Whether an update of `descriptor` is already listed.
fn update_listed(updates: &Vec<DescriptorUpdate>, descriptor: DescriptorHandle) -> (seen: bool)
    ensures
        seen == exists|b: int| 0 <= b < updates@.len() && updates@[b].descriptor == descriptor,
{
    let mut a: usize = 0;
    while a < updates.len()
        invariant
            a <= updates@.len(),
            forall|b: int| 0 <= b < a ==> updates@[b].descriptor != descriptor,
        decreases updates@.len() - a,
    {
        if updates[a].descriptor == descriptor {
            return true;
        }
        a = a + 1;
    }
    false
}

/// The physical descriptor set for descriptor set resource `i`: its layout's
/// heap is registered and the set allocated when its resolved bindings are
/// new. Returns it with its layout and resolved bindings.
fn physical_descriptor(
    g: &RenderGraph,
    cache: &mut RenderGraphCache,
    attachment_map: &VirtualToPhysicalResourceMap<usize>,
    buffer_map: &VirtualToPhysicalResourceMap<usize>,
    i: usize,
) -> (r: (DescriptorHandle, DescriptorSetInfoId, Vec<(u32, DescriptorHeapCacheKeyBinding)>))
    requires
        graph_valid(*g),
        old(cache).wf(),
        i < g.owned_resources@.len(),
        g.owned_resources@[i as int] is DescriptorSet,
        forall|i: usize| crate::valid::is_attachment(*g, i) ==> attachment_map.get(i) is Some,
        forall|i: usize| crate::valid::is_buffer(*g, i) ==> buffer_map.get(i) is Some,
    ensures
        heaps_grow(*old(cache), *final(cache)),
        descriptor_bound(*g, *final(cache), *attachment_map, *buffer_map, g.owned_resources@[i as int], r.0),
        r.1 == g.owned_resources@[i as int]->DescriptorSet_descriptor_layout,
        r.2@ == descriptor_view_of(*g, *attachment_map, *buffer_map, g.owned_resources@[i as int]),
        final(cache).wf(),
        final(cache).attachment_cache == old(cache).attachment_cache,
        final(cache).buffer_cache == old(cache).buffer_cache,
        final(cache).render_pass_cache == old(cache).render_pass_cache,
        final(cache).framebuffer_cache == old(cache).framebuffer_cache,
        final(cache).raster_pipeline_cache == old(cache).raster_pipeline_cache,
        final(cache).compute_pipeline_cache == old(cache).compute_pipeline_cache,
{
    match &g.owned_resources[i] {
        GraphOwnedResource::DescriptorSet { descriptor_layout, bindings } => {
            assert(crate::valid::resource_valid(*g, g.owned_resources@[i as int]));
            let heap = register_layout(cache, *descriptor_layout);
            let mut key_bindings: Vec<(u32, DescriptorHeapCacheKeyBinding)> = Vec::new();
            let mut k: usize = 0;
            while k < bindings.len()
                invariant
                    graph_valid(*g),
                    k <= bindings@.len(),
                    forall|j: int| 0 <= j < bindings@.len() ==> crate::valid::binding_valid(*g, #[trigger] bindings@[j].1),
                    forall|i: usize| crate::valid::is_attachment(*g, i) ==> attachment_map.get(i) is Some,
                    forall|i: usize| crate::valid::is_buffer(*g, i) ==> buffer_map.get(i) is Some,
                    key_bindings@ == bindings@.take(k as int).map_values(
                        |b: (u32, GraphOwnedResourceDescriptorBinding)| (b.0, key_binding_of(*g, *attachment_map, *buffer_map, b.1)),
                    ),
                decreases bindings@.len() - k,
            {
                let (slot, b) = bindings[k];
                assert(crate::valid::binding_valid(*g, bindings@[k as int].1));
                key_bindings.push((slot, key_binding(g, attachment_map, buffer_map, b)));
                proof {
                    assert(key_bindings@ =~= bindings@.take(k + 1).map_values(
                        |b: (u32, GraphOwnedResourceDescriptorBinding)| (b.0, key_binding_of(*g, *attachment_map, *buffer_map, b.1)),
                    ));
                }
                k = k + 1;
            }
            proof {
                assert(bindings@.take(bindings@.len() as int) =~= bindings@);
            }
            let contents = vec_copy(&key_bindings);
            let ghost cache1 = *cache;
            let mut table: KeyTable<DescriptorHeapCacheKey> = KeyTable::new();
            cache.descriptor_heaps.set_and_swap(heap, &mut table);
            let ghost table0 = table;
            let key = DescriptorHeapCacheKey { bindings: key_bindings };
            proof {
                assert(key_views(key.bindings@) =~= key.bindings@);
            }
            let (index, _) = table.intern(key);
            let ghost table1 = table;
            cache.descriptor_heaps.set_and_swap(heap, &mut table);
            proof {
                assert(cache.descriptor_heaps@ =~= cache1.descriptor_heaps@.update(heap as int, table1));
                assert(table0 == cache1.descriptor_heaps@[heap as int]);
                assert forall|h: int| 0 <= h < old(cache).descriptor_heaps@.len() implies #[trigger] cache.descriptor_heaps@[h].grows_from(old(cache).descriptor_heaps@[h]) by {
                    assert(cache1.descriptor_heaps@[h] == old(cache).descriptor_heaps@[h]);
                }
            }
            let descriptor = DescriptorHandle { heap, index };
            (descriptor, *descriptor_layout, contents)
        },
        _ => {
            proof {
                assert(false);
            }
            (DescriptorHandle { heap: 0, index: 0 }, 0, Vec::new())
        },
    }
}

/// Binds each descriptor set to a physical descriptor set of its layout's
/// heap; sets with equal resolved bindings share one. Each physical
/// descriptor set bound here gets exactly one update.
pub(crate) fn alloc_descriptors(
    g: &RenderGraph,
    cache: &mut RenderGraphCache,
    attachment_map: &VirtualToPhysicalResourceMap<usize>,
    buffer_map: &VirtualToPhysicalResourceMap<usize>,
) -> (r: (VirtualToPhysicalResourceMap<DescriptorHandle>, Vec<DescriptorUpdate>))
    requires
        graph_valid(*g),
        old(cache).wf(),
        forall|i: usize| crate::valid::is_attachment(*g, i) ==> attachment_map.get(i) is Some,
        forall|i: usize| crate::valid::is_buffer(*g, i) ==> buffer_map.get(i) is Some,
    ensures
        forall|a: int| 0 <= a < r.1@.len() ==> set_bound_to(*g, r.0, #[trigger] r.1@[a].descriptor),
        forall|i1: usize, i2: usize|
            i1 < g.owned_resources@.len() && i2 < g.owned_resources@.len() && g.owned_resources@[i1 as int] is DescriptorSet
                && g.owned_resources@[i2 as int] is DescriptorSet
                && g.owned_resources@[i1 as int]->DescriptorSet_descriptor_layout
                == g.owned_resources@[i2 as int]->DescriptorSet_descriptor_layout && descriptor_view_of(
                *g,
                *attachment_map,
                *buffer_map,
                g.owned_resources@[i1 as int],
            ) == descriptor_view_of(*g, *attachment_map, *buffer_map, g.owned_resources@[i2 as int])
                ==> #[trigger] r.0.get(i1) == #[trigger] r.0.get(i2),
        heaps_grow(*old(cache), *final(cache)),
        forall|i: usize|
            i < g.owned_resources@.len() && g.owned_resources@[i as int] is DescriptorSet ==> descriptor_bound(
                *g,
                *final(cache),
                *attachment_map,
                *buffer_map,
                g.owned_resources@[i as int],
                #[trigger] r.0.get(i)->Some_0,
            ),
        forall|a: int| 0 <= a < r.1@.len() ==> update_matches(*final(cache), #[trigger] r.1@[a]),
        final(cache).wf(),
        final(cache).attachment_cache == old(cache).attachment_cache,
        final(cache).buffer_cache == old(cache).buffer_cache,
        final(cache).render_pass_cache == old(cache).render_pass_cache,
        final(cache).framebuffer_cache == old(cache).framebuffer_cache,
        final(cache).raster_pipeline_cache == old(cache).raster_pipeline_cache,
        final(cache).compute_pipeline_cache == old(cache).compute_pipeline_cache,
        forall|i: usize| i < g.owned_resources@.len() ==> (#[trigger] r.0.get(i) is Some <==> g.owned_resources@[i as int] is DescriptorSet),
        forall|a: int, b: int| 0 <= a < b < r.1@.len() ==> r.1@[a].descriptor != r.1@[b].descriptor,
        forall|i: usize| i < g.owned_resources@.len() && g.owned_resources@[i as int] is DescriptorSet ==> has_update(r.1@, #[trigger] r.0.get(i)),
{
    let mut map: VirtualToPhysicalResourceMap<DescriptorHandle> = VirtualToPhysicalResourceMap::new();
    let mut updates: Vec<DescriptorUpdate> = Vec::new();
    let mut i: usize = 0;
    while i < g.owned_resources.len()
        invariant
            forall|a: int| 0 <= a < updates@.len() ==> set_bound_to(*g, map, #[trigger] updates@[a].descriptor),
            heaps_grow(*old(cache), *cache),
            forall|h: usize|
                h < i && g.owned_resources@[h as int] is DescriptorSet ==> descriptor_bound(
                    *g,
                    *cache,
                    *attachment_map,
                    *buffer_map,
                    g.owned_resources@[h as int],
                    #[trigger] map.get(h)->Some_0,
                ),
            forall|a: int| 0 <= a < updates@.len() ==> update_matches(*cache, #[trigger] updates@[a]),
            graph_valid(*g),
            i <= g.owned_resources@.len(),
            cache.wf(),
            cache.attachment_cache == old(cache).attachment_cache,
            cache.buffer_cache == old(cache).buffer_cache,
            cache.render_pass_cache == old(cache).render_pass_cache,
            cache.framebuffer_cache == old(cache).framebuffer_cache,
            cache.raster_pipeline_cache == old(cache).raster_pipeline_cache,
            cache.compute_pipeline_cache == old(cache).compute_pipeline_cache,
            forall|i: usize| crate::valid::is_attachment(*g, i) ==> attachment_map.get(i) is Some,
            forall|i: usize| crate::valid::is_buffer(*g, i) ==> buffer_map.get(i) is Some,
            forall|h: usize| h < i ==> (#[trigger] map.get(h) is Some <==> g.owned_resources@[h as int] is DescriptorSet),
            forall|h: usize| h >= i ==> #[trigger] map.get(h) is None,
            forall|a: int, b: int| 0 <= a < b < updates@.len() ==> updates@[a].descriptor != updates@[b].descriptor,
            forall|h: usize| h < i && g.owned_resources@[h as int] is DescriptorSet ==> has_update(updates@, #[trigger] map.get(h)),
        decreases g.owned_resources@.len() - i,
    {
        if matches!(g.owned_resources[i], GraphOwnedResource::DescriptorSet { .. }) {
                let ghost cache0 = *cache;
                let (descriptor, layout, contents) = physical_descriptor(g, cache, attachment_map, buffer_map, i);
                proof {
                    lemma_heaps_grow_trans(*old(cache), cache0, *cache);
                    assert forall|h: usize|
                        h < i && g.owned_resources@[h as int] is DescriptorSet implies descriptor_bound(
                            *g,
                            *cache,
                            *attachment_map,
                            *buffer_map,
                            g.owned_resources@[h as int],
                            #[trigger] map.get(h)->Some_0,
                        ) by {
                        let d = map.get(h)->Some_0;
                        assert(descriptor_bound(*g, cache0, *attachment_map, *buffer_map, g.owned_resources@[h as int], d));
                        assert(cache.descriptor_heaps@[d.heap as int].grows_from(cache0.descriptor_heaps@[d.heap as int]));
                    }
                    assert forall|a: int| 0 <= a < updates@.len() implies update_matches(*cache, #[trigger] updates@[a]) by {
                        let d = updates@[a].descriptor;
                        assert(update_matches(cache0, updates@[a]));
                        assert(cache.descriptor_heaps@[d.heap as int].grows_from(cache0.descriptor_heaps@[d.heap as int]));
                    }
                }
                let seen = update_listed(&updates, descriptor);
                let ghost map0 = map;
                let ghost updates0 = updates@;
                map.map_physical(i, descriptor);
                if !seen {
                    updates.push(DescriptorUpdate { descriptor, layout, bindings: contents });
                }
                proof {
                    assert forall|a: int| 0 <= a < updates@.len() implies set_bound_to(*g, map, #[trigger] updates@[a].descriptor) by {
                        reveal(set_bound_to);
                        if a < updates0.len() {
                            assert(updates@[a] == updates0[a]);
                            assert(set_bound_to(*g, map0, updates0[a].descriptor));
                            let w = choose|w: usize|
                                w < g.owned_resources@.len() && g.owned_resources@[w as int] is DescriptorSet && #[trigger] map0.get(w) == Some(updates0[a].descriptor);
                            assert(w < i);
                            assert(map.get(w) == map0.get(w));
                        } else {
                            assert(map.get(i) == Some(descriptor));
                        }
                    }
                }
                proof {
                    assert forall|h: usize| h < i + 1 && g.owned_resources@[h as int] is DescriptorSet implies has_update(updates@, #[trigger] map.get(h)) by {
                        if h == i {
                            if seen {
                                let b = choose|b: int| 0 <= b < updates0.len() && updates0[b].descriptor == descriptor;
                                assert(updates@[b] == updates0[b]);
                            } else {
                                assert(updates@[updates0.len() as int].descriptor == descriptor);
                            }
                        } else {
                            assert(map.get(h) == map0.get(h));
                            assert(has_update(updates0, map0.get(h)));
                            let b = choose|b: int| 0 <= b < updates0.len() && Some(updates0[b].descriptor) == map0.get(h);
                            assert(updates@[b] == updates0[b]);
                        }
                    }
                }
        }
        i = i + 1;
    }
    proof {
        assert forall|i1: usize, i2: usize|
            i1 < g.owned_resources@.len() && i2 < g.owned_resources@.len() && g.owned_resources@[i1 as int] is DescriptorSet
                && g.owned_resources@[i2 as int] is DescriptorSet
                && g.owned_resources@[i1 as int]->DescriptorSet_descriptor_layout
                == g.owned_resources@[i2 as int]->DescriptorSet_descriptor_layout && descriptor_view_of(
                *g,
                *attachment_map,
                *buffer_map,
                g.owned_resources@[i1 as int],
            ) == descriptor_view_of(*g, *attachment_map, *buffer_map, g.owned_resources@[i2 as int])
                implies #[trigger] map.get(i1) == #[trigger] map.get(i2) by {
            lemma_same_key_same_descriptor(
                *g,
                *cache,
                *attachment_map,
                *buffer_map,
                g.owned_resources@[i1 as int],
                g.owned_resources@[i2 as int],
                map.get(i1)->Some_0,
                map.get(i2)->Some_0,
            );
        }
    }
    (map, updates)
}

/// Some pass of `g` reads attachment `id`.
pub open spec fn read_later(g: RenderGraph, id: usize) -> bool {
    exists|q: int, i: int|
        0 <= q < g.passes@.len() && 0 <= i < g.passes@[q].read_attachments@.len()
            && #[trigger] g.passes@[q].read_attachments@[i].id == id
}

/// The layout a render pass leaves attachment `h` in: ready for shader reads
/// when some pass reads it, else the layout the render pass wrote it in.
pub open spec fn final_layout_of(g: RenderGraph, h: MutableGraphAttachmentHandle) -> ImageLayout {
    if read_later(g, h.id) {
        ImageLayout::ShaderReadOnlyOptimal
    } else {
        h.layout
    }
}

/// Whether some pass of `g` reads attachment `id`.
fn is_read_later(g: &RenderGraph, id: usize) -> (r: bool)
    ensures
        r == read_later(*g, id),
{
    let mut q: usize = 0;
    while q < g.passes.len()
        invariant
            q <= g.passes@.len(),
            forall|p: int, i: int|
                0 <= p < q && 0 <= i < g.passes@[p].read_attachments@.len() ==> #[trigger] g.passes@[p].read_attachments@[i].id != id,
        decreases g.passes@.len() - q,
    {
        let reads = &g.passes[q].read_attachments;
        let mut i: usize = 0;
        while i < reads.len()
            invariant
                q < g.passes@.len(),
                *reads == g.passes@[q as int].read_attachments,
                i <= reads@.len(),
                forall|p: int, k: int|
                    0 <= p < q && 0 <= k < g.passes@[p].read_attachments@.len() ==> #[trigger] g.passes@[p].read_attachments@[k].id != id,
                forall|k: int| 0 <= k < i ==> #[trigger] reads@[k].id != id,
            decreases reads@.len() - i,
        {
            if reads[i].id == id {
                assert(g.passes@[q as int].read_attachments@[i as int].id == id);
                return true;
            }
            i = i + 1;
        }
        q = q + 1;
    }
    false
}

/// How a render pass treats the attachment `h` names: loaded and stored as
/// the attachment says, from an undefined layout to `final_layout_of`.
pub open spec fn attachment_desc_of(g: RenderGraph, h: MutableGraphAttachmentHandle) -> AttachmentDescription {
    match g.owned_resources@[h.id as int] {
        GraphOwnedResource::Attachment { width: _, height: _, format, usage, load_op, store_op } => AttachmentDescription {
            format,
            usage,
            load_op,
            store_op,
            initial_layout: ImageLayout::Undefined,
            final_layout: final_layout_of(g, h),
        },
        _ => vstd::pervasive::arbitrary(),
    }
}

/// The key view of the physical render pass for render pass resource `r`.
pub open spec fn render_pass_view_of(g: RenderGraph, r: GraphOwnedResource) -> (Seq<AttachmentDescription>, Option<AttachmentDescription>) {
    match r {
        GraphOwnedResource::RenderPass { color_attachments, depth_attachment } => (
            color_attachments@.map_values(|h: MutableGraphAttachmentHandle| attachment_desc_of(g, h)),
            match depth_attachment {
                Some(h) => Some(attachment_desc_of(g, h)),
                None => None,
            },
        ),
        _ => vstd::pervasive::arbitrary(),
    }
}

/// The physical attachments of the framebuffer for render pass resource
/// `r`: its color attachments, then its depth attachment.
pub open spec fn framebuffer_attachments_of(
    m: VirtualToPhysicalResourceMap<usize>,
    r: GraphOwnedResource,
) -> Seq<usize> {
    match r {
        GraphOwnedResource::RenderPass { color_attachments, depth_attachment } => {
            let colors = color_attachments@.map_values(|h: MutableGraphAttachmentHandle| m.get(h.id)->Some_0);
            match depth_attachment {
                Some(h) => colors.push(m.get(h.id)->Some_0),
                None => colors,
            }
        },
        _ => vstd::pervasive::arbitrary(),
    }
}

/// The smallest of `s`, or 0 when `s` is empty.
pub open spec fn fold_min(s: Seq<u32>) -> u32
    decreases s.len(),
{
    if s.len() == 0 {
        0
    } else if s.len() == 1 {
        s[0]
    } else {
        let m = fold_min(s.drop_last());
        if s.last() < m {
            s.last()
        } else {
            m
        }
    }
}

pub open spec fn width_of(g: RenderGraph, h: MutableGraphAttachmentHandle) -> u32 {
    g.owned_resources@[h.id as int]->Attachment_width
}

pub open spec fn height_of(g: RenderGraph, h: MutableGraphAttachmentHandle) -> u32 {
    g.owned_resources@[h.id as int]->Attachment_height
}

/// The widths of the attachments of render pass resource `r`, colors then depth.
pub open spec fn attachment_widths_of(g: RenderGraph, r: GraphOwnedResource) -> Seq<u32> {
    let colors = r->RenderPass_color_attachments@.map_values(|h: MutableGraphAttachmentHandle| width_of(g, h));
    match r->RenderPass_depth_attachment {
        Some(h) => colors.push(width_of(g, h)),
        None => colors,
    }
}

/// The heights of the attachments of render pass resource `r`, colors then depth.
pub open spec fn attachment_heights_of(g: RenderGraph, r: GraphOwnedResource) -> Seq<u32> {
    let colors = r->RenderPass_color_attachments@.map_values(|h: MutableGraphAttachmentHandle| height_of(g, h));
    match r->RenderPass_depth_attachment {
        Some(h) => colors.push(height_of(g, h)),
        None => colors,
    }
}

/// The key view of the framebuffer for render pass resource `r` drawn with
/// physical render pass `render_pass`: the smallest width and height of its
/// attachments, the attachments, and the render pass.
pub open spec fn framebuffer_view_of(
    g: RenderGraph,
    m: VirtualToPhysicalResourceMap<usize>,
    r: GraphOwnedResource,
    render_pass: usize,
) -> (u32, u32, Seq<usize>, usize) {
    (
        fold_min(attachment_widths_of(g, r)),
        fold_min(attachment_heights_of(g, r)),
        framebuffer_attachments_of(m, r),
        render_pass,
    )
}

/// `b` is a physical render pass and framebuffer of `cache` whose keys are
/// those of render pass resource `r`.
pub open spec fn render_pass_bound(
    g: RenderGraph,
    cache: RenderGraphCache,
    m: VirtualToPhysicalResourceMap<usize>,
    r: GraphOwnedResource,
    b: RenderPassBinding,
) -> bool {
    match b {
        RenderPassBinding::Physical { render_pass, framebuffer } => {
            &&& render_pass < cache.render_pass_cache.keys@.len()
            &&& cache.render_pass_cache.views()[render_pass as int] == render_pass_view_of(g, r)
            &&& framebuffer < cache.framebuffer_cache.keys@.len()
            &&& cache.framebuffer_cache.views()[framebuffer as int] == framebuffer_view_of(g, m, r, render_pass)
        },
        RenderPassBinding::Output => false,
    }
}

/// What an attachment resource contributes to a render-pass key, with its
/// width and height.
fn attachment_description(g: &RenderGraph, h: MutableGraphAttachmentHandle) -> (r: (AttachmentDescription, u32, u32))
    requires
        is_attachment(*g, h.id),
    ensures
        r.0 == attachment_desc_of(*g, h),
        r.1 == width_of(*g, h),
        r.2 == height_of(*g, h),
{
    let id = h.id;
    let final_layout = if is_read_later(g, id) {
        ImageLayout::ShaderReadOnlyOptimal
    } else {
        h.layout
    };
    match &g.owned_resources[id] {
        GraphOwnedResource::Attachment { width, height, format, usage, load_op, store_op } => (
            AttachmentDescription {
                format: *format,
                usage: *usage,
                load_op: *load_op,
                store_op: *store_op,
                initial_layout: ImageLayout::Undefined,
                final_layout,
            },
            *width,
            *height,
        ),
        _ => {
            proof {
                assert(false);
            }
            (
                AttachmentDescription {
                    format: crate::resources::TextureFormat::RGBA8,
                    usage: 0,
                    load_op: crate::resources::LoadOp::Load,
                    store_op: crate::resources::StoreOp::Store,
                    initial_layout: ImageLayout::Undefined,
                    final_layout,
                },
                0,
                0,
            )
        },
    }
}

/// The physical render pass and framebuffer for render pass resource `i`,
/// made when their keys are new. Each attachment starts undefined and ends
/// ready for shader reads when some pass reads it, else in the layout the
/// render pass wrote it in; the framebuffer takes the smallest width and
/// height of the attachments.
fn physical_render_pass(
    g: &RenderGraph,
    cache: &mut RenderGraphCache,
    attachment_map: &VirtualToPhysicalResourceMap<usize>,
    i: usize,
) -> (r: RenderPassBinding)
    requires
        graph_valid(*g),
        old(cache).wf(),
        i < g.owned_resources@.len(),
        g.owned_resources@[i as int] is RenderPass,
        forall|i: usize| is_attachment(*g, i) ==> attachment_map.get(i) is Some,
    ensures
        final(cache).descriptor_layouts == old(cache).descriptor_layouts,
        final(cache).descriptor_heaps == old(cache).descriptor_heaps,
        final(cache).wf(),
        final(cache).attachment_cache == old(cache).attachment_cache,
        final(cache).buffer_cache == old(cache).buffer_cache,
        final(cache).raster_pipeline_cache == old(cache).raster_pipeline_cache,
        final(cache).compute_pipeline_cache == old(cache).compute_pipeline_cache,
        final(cache).render_pass_cache.grows_from(old(cache).render_pass_cache),
        final(cache).framebuffer_cache.grows_from(old(cache).framebuffer_cache),
        render_pass_bound(*g, *final(cache), *attachment_map, g.owned_resources@[i as int], r),
{
    match &g.owned_resources[i] {
        GraphOwnedResource::RenderPass { color_attachments, depth_attachment } => {
            assert(crate::valid::resource_valid(*g, g.owned_resources@[i as int]));
            let mut descs: Vec<AttachmentDescription> = Vec::new();
            let mut physical: Vec<usize> = Vec::new();
            let mut width: u32 = 0;
            let mut height: u32 = 0;
            let mut k: usize = 0;
            while k < color_attachments.len()
                invariant
                    k <= color_attachments@.len(),
                    forall|j: int| 0 <= j < color_attachments@.len() ==> is_attachment(*g, #[trigger] color_attachments@[j].id),
                    forall|i: usize| is_attachment(*g, i) ==> attachment_map.get(i) is Some,
                    descs@ == color_attachments@.take(k as int).map_values(|h: MutableGraphAttachmentHandle| attachment_desc_of(*g, h)),
                    width == fold_min(color_attachments@.take(k as int).map_values(|h: MutableGraphAttachmentHandle| width_of(*g, h))),
                    height == fold_min(color_attachments@.take(k as int).map_values(|h: MutableGraphAttachmentHandle| height_of(*g, h))),
                    physical@ == color_attachments@.take(k as int).map_values(|h: MutableGraphAttachmentHandle| attachment_map.get(h.id)->Some_0),
                decreases color_attachments@.len() - k,
            {
                let h = color_attachments[k];
                assert(is_attachment(*g, color_attachments@[k as int].id));
                let (d, w, ht) = attachment_description(g, h);
                descs.push(d);
                physical.push(attachment_map.get_physical(h.id));
                if k == 0 || w < width {
                    width = w;
                }
                if k == 0 || ht < height {
                    height = ht;
                }
                proof {
                    let ws = color_attachments@.take(k + 1).map_values(|h: MutableGraphAttachmentHandle| width_of(*g, h));
                    let hs = color_attachments@.take(k + 1).map_values(|h: MutableGraphAttachmentHandle| height_of(*g, h));
                    assert(ws.drop_last() =~= color_attachments@.take(k as int).map_values(|h: MutableGraphAttachmentHandle| width_of(*g, h)));
                    assert(hs.drop_last() =~= color_attachments@.take(k as int).map_values(|h: MutableGraphAttachmentHandle| height_of(*g, h)));
                    assert(descs@ =~= color_attachments@.take(k + 1).map_values(|h: MutableGraphAttachmentHandle| attachment_desc_of(*g, h)));
                    assert(physical@ =~= color_attachments@.take(k + 1).map_values(|h: MutableGraphAttachmentHandle| attachment_map.get(h.id)->Some_0));
                }
                k = k + 1;
            }
            proof {
                assert(color_attachments@.take(color_attachments@.len() as int) =~= color_attachments@);
            }
            let ghost color_physical = physical@;
            let ghost ws0 = color_attachments@.map_values(|h: MutableGraphAttachmentHandle| width_of(*g, h));
            let ghost hs0 = color_attachments@.map_values(|h: MutableGraphAttachmentHandle| height_of(*g, h));
            let depth = match depth_attachment {
                Some(h) => {
                    let (d, w, ht) = attachment_description(g, *h);
                    physical.push(attachment_map.get_physical(h.id));
                    if color_attachments.len() == 0 || w < width {
                        width = w;
                    }
                    if color_attachments.len() == 0 || ht < height {
                        height = ht;
                    }
                    Some(d)
                },
                None => None,
            };
            let key = RenderPassCacheKey { color_attachment_descs: vec_copy(&descs), depth_attachment_desc: depth };
            proof {
                assert(key_views(key.color_attachment_descs@) =~= key.color_attachment_descs@);
                assert(key@ == render_pass_view_of(*g, g.owned_resources@[i as int]));
            }
            let (render_pass, _) = cache.render_pass_cache.intern(key);
            let fb_key = FramebufferCacheKey { width, height, attachments: vec_copy(&physical), render_pass };
            proof {
                assert(key_views(fb_key.attachments@) =~= fb_key.attachments@);
                assert(physical@ =~= framebuffer_attachments_of(*attachment_map, g.owned_resources@[i as int]));
                match depth_attachment {
                    Some(h) => {
                        assert(attachment_widths_of(*g, g.owned_resources@[i as int]).drop_last() =~= ws0);
                        assert(attachment_heights_of(*g, g.owned_resources@[i as int]).drop_last() =~= hs0);
                    },
                    None => {
                        assert(attachment_widths_of(*g, g.owned_resources@[i as int]) =~= ws0);
                        assert(attachment_heights_of(*g, g.owned_resources@[i as int]) =~= hs0);
                    },
                }
                assert(fb_key@ == framebuffer_view_of(*g, *attachment_map, g.owned_resources@[i as int], render_pass));
            }
            let (framebuffer, _) = cache.framebuffer_cache.intern(fb_key);
            RenderPassBinding::Physical { render_pass, framebuffer }
        },
        _ => {
            proof {
                assert(false);
            }
            RenderPassBinding::Output
        },
    }
}

/// Binds each render pass resource: the output render pass to the
/// swapchain image, every other one to a physical render pass and
/// framebuffer.
pub(crate) fn alloc_render_passes(
    g: &RenderGraph,
    cache: &mut RenderGraphCache,
    attachment_map: &VirtualToPhysicalResourceMap<usize>,
) -> (m: VirtualToPhysicalResourceMap<RenderPassBinding>)
    requires
        graph_valid(*g),
        old(cache).wf(),
        forall|i: usize| is_attachment(*g, i) ==> attachment_map.get(i) is Some,
    ensures
        forall|i1: usize, i2: usize|
            i1 < g.owned_resources@.len() && i2 < g.owned_resources@.len() && g.owned_resources@[i1 as int] is RenderPass
                && g.owned_resources@[i2 as int] is RenderPass && render_pass_view_of(*g, g.owned_resources@[i1 as int])
                == render_pass_view_of(*g, g.owned_resources@[i2 as int]) ==> #[trigger] m.get(i1)->Some_0->Physical_render_pass == #[trigger] m.get(i2)->Some_0->Physical_render_pass,
        forall|i1: usize, i2: usize|
            i1 < g.owned_resources@.len() && i2 < g.owned_resources@.len() && g.owned_resources@[i1 as int] is RenderPass
                && g.owned_resources@[i2 as int] is RenderPass && render_pass_view_of(*g, g.owned_resources@[i1 as int])
                == render_pass_view_of(*g, g.owned_resources@[i2 as int]) && framebuffer_view_of(*g, *attachment_map, g.owned_resources@[i1 as int], 0)
                == framebuffer_view_of(*g, *attachment_map, g.owned_resources@[i2 as int], 0) ==> #[trigger] m.get(i1) == #[trigger] m.get(i2),
        final(cache).render_pass_cache.grows_from(old(cache).render_pass_cache),
        final(cache).framebuffer_cache.grows_from(old(cache).framebuffer_cache),
        final(cache).descriptor_layouts == old(cache).descriptor_layouts,
        final(cache).descriptor_heaps == old(cache).descriptor_heaps,
        final(cache).wf(),
        final(cache).attachment_cache == old(cache).attachment_cache,
        final(cache).buffer_cache == old(cache).buffer_cache,
        forall|i: usize| i < g.owned_resources@.len() ==> (#[trigger] m.get(i) is Some <==> crate::valid::is_render_pass(*g, i)),
        forall|i: usize| i < g.owned_resources@.len() ==> (#[trigger] m.get(i) == Some(RenderPassBinding::Output)
            <==> g.owned_resources@[i as int] is OutputRenderPass),
        forall|i: usize|
            i < g.owned_resources@.len() && g.owned_resources@[i as int] is RenderPass ==> render_pass_bound(
                *g,
                *final(cache),
                *attachment_map,
                g.owned_resources@[i as int],
                #[trigger] m.get(i)->Some_0,
            ),
        final(cache).raster_pipeline_cache == old(cache).raster_pipeline_cache,
        final(cache).compute_pipeline_cache == old(cache).compute_pipeline_cache,
{
    let mut map: VirtualToPhysicalResourceMap<RenderPassBinding> = VirtualToPhysicalResourceMap::new();
    let mut i: usize = 0;
    while i < g.owned_resources.len()
        invariant
            cache.render_pass_cache.grows_from(old(cache).render_pass_cache),
            cache.framebuffer_cache.grows_from(old(cache).framebuffer_cache),
            cache.descriptor_layouts == old(cache).descriptor_layouts,
            cache.descriptor_heaps == old(cache).descriptor_heaps,
            graph_valid(*g),
            i <= g.owned_resources@.len(),
            cache.wf(),
            cache.attachment_cache == old(cache).attachment_cache,
            cache.buffer_cache == old(cache).buffer_cache,
            forall|i: usize| is_attachment(*g, i) ==> attachment_map.get(i) is Some,
            forall|h: usize| h < i ==> (#[trigger] map.get(h) is Some <==> crate::valid::is_render_pass(*g, h)),
            forall|h: usize| h < i ==> (#[trigger] map.get(h) == Some(RenderPassBinding::Output)
                <==> g.owned_resources@[h as int] is OutputRenderPass),
            forall|h: usize| h >= i ==> #[trigger] map.get(h) is None,
            forall|h: usize|
                h < i && g.owned_resources@[h as int] is RenderPass ==> render_pass_bound(
                    *g,
                    *cache,
                    *attachment_map,
                    g.owned_resources@[h as int],
                    #[trigger] map.get(h)->Some_0,
                ),
            cache.raster_pipeline_cache == old(cache).raster_pipeline_cache,
            cache.compute_pipeline_cache == old(cache).compute_pipeline_cache,
        decreases g.owned_resources@.len() - i,
    {
        if matches!(g.owned_resources[i], GraphOwnedResource::RenderPass { .. }) {
            let ghost cache0 = *cache;
            let ghost map0 = map;
            let b = physical_render_pass(g, cache, attachment_map, i);
            map.map_physical(i, b);
            proof {
                crate::pool::lemma_grows_trans(old(cache).render_pass_cache, cache0.render_pass_cache, cache.render_pass_cache);
                crate::pool::lemma_grows_trans(old(cache).framebuffer_cache, cache0.framebuffer_cache, cache.framebuffer_cache);
                assert forall|h: usize|
                    h < i && g.owned_resources@[h as int] is RenderPass implies render_pass_bound(
                        *g,
                        *cache,
                        *attachment_map,
                        g.owned_resources@[h as int],
                        #[trigger] map.get(h)->Some_0,
                    ) by {
                    assert(map.get(h) == map0.get(h));
                    let b0 = map0.get(h)->Some_0;
                    assert(render_pass_bound(*g, cache0, *attachment_map, g.owned_resources@[h as int], b0));
                    match b0 {
                        RenderPassBinding::Physical { render_pass, framebuffer } => {
                            assert(cache.render_pass_cache.views()[render_pass as int] == cache0.render_pass_cache.views()[render_pass as int]);
                            assert(cache.framebuffer_cache.views()[framebuffer as int] == cache0.framebuffer_cache.views()[framebuffer as int]);
                        },
                        RenderPassBinding::Output => {},
                    }
                }
            }
        } else if matches!(g.owned_resources[i], GraphOwnedResource::OutputRenderPass) {
            map.map_physical(i, RenderPassBinding::Output);
        }
        i = i + 1;
    }
    proof {
        assert forall|i1: usize, i2: usize|
            i1 < g.owned_resources@.len() && i2 < g.owned_resources@.len() && g.owned_resources@[i1 as int] is RenderPass
                && g.owned_resources@[i2 as int] is RenderPass && render_pass_view_of(*g, g.owned_resources@[i1 as int])
                == render_pass_view_of(*g, g.owned_resources@[i2 as int]) implies #[trigger] map.get(i1)->Some_0->Physical_render_pass == #[trigger] map.get(i2)->Some_0->Physical_render_pass by {
            let b1 = map.get(i1)->Some_0;
            let b2 = map.get(i2)->Some_0;
            assert(render_pass_bound(*g, *cache, *attachment_map, g.owned_resources@[i1 as int], b1));
            assert(render_pass_bound(*g, *cache, *attachment_map, g.owned_resources@[i2 as int], b2));
            lemma_same_key_same_index(cache.render_pass_cache, b1->Physical_render_pass as int, b2->Physical_render_pass as int);
        }
        assert forall|i1: usize, i2: usize|
            i1 < g.owned_resources@.len() && i2 < g.owned_resources@.len() && g.owned_resources@[i1 as int] is RenderPass
                && g.owned_resources@[i2 as int] is RenderPass && render_pass_view_of(*g, g.owned_resources@[i1 as int])
                == render_pass_view_of(*g, g.owned_resources@[i2 as int]) && framebuffer_view_of(*g, *attachment_map, g.owned_resources@[i1 as int], 0)
                == framebuffer_view_of(*g, *attachment_map, g.owned_resources@[i2 as int], 0) implies #[trigger] map.get(i1) == #[trigger] map.get(i2) by {
            let b1 = map.get(i1)->Some_0;
            let b2 = map.get(i2)->Some_0;
            assert(render_pass_bound(*g, *cache, *attachment_map, g.owned_resources@[i1 as int], b1));
            assert(render_pass_bound(*g, *cache, *attachment_map, g.owned_resources@[i2 as int], b2));
            lemma_same_key_same_index(cache.render_pass_cache, b1->Physical_render_pass as int, b2->Physical_render_pass as int);
            lemma_same_key_same_index(cache.framebuffer_cache, b1->Physical_framebuffer as int, b2->Physical_framebuffer as int);
        }
    }
    map
}

/// The shader module imported at `id`.
pub open spec fn shader_of(g: RenderGraph, id: usize) -> u64 {
    g.imported_resources@[id as int]->Shader_module
}

/// What a raster pipeline draws into, by the binding of its render pass.
pub open spec fn target_of(b: RenderPassBinding) -> RenderTarget {
    match b {
        RenderPassBinding::Output => RenderTarget::Output,
        RenderPassBinding::Physical { render_pass, framebuffer: _ } => RenderTarget::RenderPass(render_pass),
    }
}

/// The key view of the physical pipeline for raster pipeline resource `r`.
pub open spec fn raster_view_of(
    g: RenderGraph,
    render_pass_map: VirtualToPhysicalResourceMap<RenderPassBinding>,
    r: GraphOwnedResource,
) -> (RasterPipelineState, Seq<u64>, Seq<VertexAttributeDescriptionBinding>) {
    match r {
        GraphOwnedResource::RasterPipeline(p) => (
            RasterPipelineState {
                vs: shader_of(g, p.vs.id),
                ps: match p.ps {
                    Some(h) => Some(shader_of(g, h.id)),
                    None => None,
                },
                render_pass: target_of(render_pass_map.get(p.render_pass.id)->Some_0),
                depth_compare_op: p.depth_compare_op,
                depth_write: p.depth_write,
                face_cull: p.face_cull,
                push_constant_bytes: p.push_constant_bytes,
                vertex_stride: p.vertex_input_info.stride,
                polygon_mode: p.polygon_mode,
            },
            p.descriptor_layouts@,
            p.vertex_input_info.bindings@,
        ),
        _ => vstd::pervasive::arbitrary(),
    }
}

/// The key view of the physical pipeline for compute pipeline resource `r`.
pub open spec fn compute_view_of(g: RenderGraph, r: GraphOwnedResource) -> (u64, Seq<u64>) {
    match r {
        GraphOwnedResource::ComputePipeline { cs, descriptor_layouts } => (shader_of(g, cs.id), descriptor_layouts@),
        _ => vstd::pervasive::arbitrary(),
    }
}

/// The shader module an imported shader handle names.
fn shader_module(g: &RenderGraph, id: usize) -> (m: u64)
    requires
        is_imported_shader(*g, id),
    ensures
        m == shader_of(*g, id),
{
    match g.imported_resources[id] {
        GraphImportedResource::Shader { module } => module,
        _ => {
            proof {
                assert(false);
            }
            0
        },
    }
}

/// Registers the heaps of `layouts`.
fn register_layouts(cache: &mut RenderGraphCache, layouts: &Vec<DescriptorSetInfoId>)
    requires
        old(cache).wf(),
    ensures
        heaps_grow(*old(cache), *final(cache)),
        final(cache).raster_pipeline_cache == old(cache).raster_pipeline_cache,
        final(cache).compute_pipeline_cache == old(cache).compute_pipeline_cache,
        final(cache).render_pass_cache == old(cache).render_pass_cache,
        final(cache).framebuffer_cache == old(cache).framebuffer_cache,
        final(cache).wf(),
        final(cache).attachment_cache == old(cache).attachment_cache,
        final(cache).buffer_cache == old(cache).buffer_cache,
{
    let mut k: usize = 0;
    while k < layouts.len()
        invariant
            heaps_grow(*old(cache), *cache),
            cache.raster_pipeline_cache == old(cache).raster_pipeline_cache,
            cache.compute_pipeline_cache == old(cache).compute_pipeline_cache,
            cache.render_pass_cache == old(cache).render_pass_cache,
            cache.framebuffer_cache == old(cache).framebuffer_cache,
            cache.wf(),
            cache.attachment_cache == old(cache).attachment_cache,
            cache.buffer_cache == old(cache).buffer_cache,
        decreases layouts@.len() - k,
    {
        let ghost cache0 = *cache;
        register_layout(cache, layouts[k]);
        proof {
            lemma_heaps_grow_trans(*old(cache), cache0, *cache);
        }
        k = k + 1;
    }
}

/// Binds each raster pipeline to a physical pipeline for its shaders, state
/// and target, made when new.
pub(crate) fn alloc_raster_pipelines(
    g: &RenderGraph,
    cache: &mut RenderGraphCache,
    render_pass_map: &VirtualToPhysicalResourceMap<RenderPassBinding>,
) -> (m: VirtualToPhysicalResourceMap<usize>)
    requires
        graph_valid(*g),
        old(cache).wf(),
        forall|i: usize| crate::valid::is_render_pass(*g, i) ==> render_pass_map.get(i) is Some,
    ensures
        forall|i1: usize, i2: usize|
            i1 < g.owned_resources@.len() && i2 < g.owned_resources@.len() && g.owned_resources@[i1 as int] is RasterPipeline
                && g.owned_resources@[i2 as int] is RasterPipeline && raster_view_of(*g, *render_pass_map, g.owned_resources@[i1 as int])
                == raster_view_of(*g, *render_pass_map, g.owned_resources@[i2 as int]) ==> #[trigger] m.get(i1) == #[trigger] m.get(i2),
        final(cache).raster_pipeline_cache.grows_from(old(cache).raster_pipeline_cache),
        heaps_grow(*old(cache), *final(cache)),
        final(cache).render_pass_cache == old(cache).render_pass_cache,
        final(cache).framebuffer_cache == old(cache).framebuffer_cache,
        final(cache).wf(),
        final(cache).attachment_cache == old(cache).attachment_cache,
        final(cache).buffer_cache == old(cache).buffer_cache,
        forall|i: usize| i < g.owned_resources@.len() ==> (#[trigger] m.get(i) is Some <==> g.owned_resources@[i as int] is RasterPipeline),
        forall|i: usize|
            i < g.owned_resources@.len() && g.owned_resources@[i as int] is RasterPipeline ==> #[trigger] m.get(i)->Some_0
                < final(cache).raster_pipeline_cache.keys@.len() && final(cache).raster_pipeline_cache.views()[m.get(i)->Some_0 as int]
                == raster_view_of(*g, *render_pass_map, g.owned_resources@[i as int]),
        final(cache).compute_pipeline_cache == old(cache).compute_pipeline_cache,
{
    let mut map: VirtualToPhysicalResourceMap<usize> = VirtualToPhysicalResourceMap::new();
    let mut i: usize = 0;
    while i < g.owned_resources.len()
        invariant
            cache.raster_pipeline_cache.grows_from(old(cache).raster_pipeline_cache),
            heaps_grow(*old(cache), *cache),
            cache.render_pass_cache == old(cache).render_pass_cache,
            cache.framebuffer_cache == old(cache).framebuffer_cache,
            graph_valid(*g),
            i <= g.owned_resources@.len(),
            cache.wf(),
            cache.attachment_cache == old(cache).attachment_cache,
            cache.buffer_cache == old(cache).buffer_cache,
            forall|i: usize| crate::valid::is_render_pass(*g, i) ==> render_pass_map.get(i) is Some,
            forall|h: usize| h < i ==> (#[trigger] map.get(h) is Some <==> g.owned_resources@[h as int] is RasterPipeline),
            forall|h: usize| h >= i ==> #[trigger] map.get(h) is None,
            forall|h: usize|
                h < i && g.owned_resources@[h as int] is RasterPipeline ==> #[trigger] map.get(h)->Some_0
                    < cache.raster_pipeline_cache.keys@.len() && cache.raster_pipeline_cache.views()[map.get(h)->Some_0 as int]
                    == raster_view_of(*g, *render_pass_map, g.owned_resources@[h as int]),
            cache.compute_pipeline_cache == old(cache).compute_pipeline_cache,
        decreases g.owned_resources@.len() - i,
    {
        match &g.owned_resources[i] {
            GraphOwnedResource::RasterPipeline(p) => {
                assert(crate::valid::resource_valid(*g, g.owned_resources@[i as int]));
                let vs = shader_module(g, p.vs.id);
                let ps = match p.ps {
                    Some(h) => Some(shader_module(g, h.id)),
                    None => None,
                };
                let ghost cache0 = *cache;
                register_layouts(cache, &p.descriptor_layouts);
                proof {
                    lemma_heaps_grow_trans(*old(cache), cache0, *cache);
                }
                let target = match render_pass_map.get_physical(p.render_pass.id) {
                    RenderPassBinding::Output => RenderTarget::Output,
                    RenderPassBinding::Physical { render_pass, framebuffer: _ } => RenderTarget::RenderPass(render_pass),
                };
                let state = RasterPipelineState {
                    vs,
                    ps,
                    render_pass: target,
                    depth_compare_op: p.depth_compare_op,
                    depth_write: p.depth_write,
                    face_cull: p.face_cull,
                    push_constant_bytes: p.push_constant_bytes,
                    vertex_stride: p.vertex_input_info.stride,
                    polygon_mode: p.polygon_mode,
                };
                let key = RasterPipelineCacheKey {
                    state,
                    descriptor_layouts: vec_copy(&p.descriptor_layouts),
                    vertex_attributes: vec_copy(&p.vertex_input_info.bindings),
                };
                proof {
                    assert(key_views(key.descriptor_layouts@) =~= key.descriptor_layouts@);
                    assert(key_views(key.vertex_attributes@) =~= key.vertex_attributes@);
                    assert(key@ == raster_view_of(*g, *render_pass_map, g.owned_resources@[i as int]));
                }
                let ghost table0 = cache.raster_pipeline_cache;
                let ghost map0 = map;
                let (index, _) = cache.raster_pipeline_cache.intern(key);
                proof {
                    crate::pool::lemma_grows_trans(old(cache).raster_pipeline_cache, table0, cache.raster_pipeline_cache);
                }
                map.map_physical(i, index);
                proof {
                    assert forall|h: usize|
                        h < i + 1 && g.owned_resources@[h as int] is RasterPipeline implies #[trigger] map.get(h)->Some_0
                            < cache.raster_pipeline_cache.keys@.len() && cache.raster_pipeline_cache.views()[map.get(h)->Some_0 as int]
                            == raster_view_of(*g, *render_pass_map, g.owned_resources@[h as int]) by {
                        if h < i {
                            assert(map.get(h) == map0.get(h));
                            let x = map0.get(h)->Some_0 as int;
                            assert(cache.raster_pipeline_cache.views()[x] == table0.views()[x]);
                        }
                    }
                }
            },
            _ => {},
        }
        i = i + 1;
    }
    proof {
        assert forall|i1: usize, i2: usize|
            i1 < g.owned_resources@.len() && i2 < g.owned_resources@.len() && g.owned_resources@[i1 as int] is RasterPipeline
                && g.owned_resources@[i2 as int] is RasterPipeline && raster_view_of(*g, *render_pass_map, g.owned_resources@[i1 as int])
                == raster_view_of(*g, *render_pass_map, g.owned_resources@[i2 as int]) implies #[trigger] map.get(i1) == #[trigger] map.get(i2) by {
            lemma_same_key_same_index(cache.raster_pipeline_cache, map.get(i1)->Some_0 as int, map.get(i2)->Some_0 as int);
        }
    }
    map
}

/// Binds each compute pipeline to a physical pipeline, made when new.
pub(crate) fn alloc_compute_pipelines(g: &RenderGraph, cache: &mut RenderGraphCache) -> (m: VirtualToPhysicalResourceMap<usize>)
    requires
        graph_valid(*g),
        old(cache).wf(),
    ensures
        forall|i1: usize, i2: usize|
            i1 < g.owned_resources@.len() && i2 < g.owned_resources@.len() && g.owned_resources@[i1 as int] is ComputePipeline
                && g.owned_resources@[i2 as int] is ComputePipeline && compute_view_of(*g, g.owned_resources@[i1 as int])
                == compute_view_of(*g, g.owned_resources@[i2 as int]) ==> #[trigger] m.get(i1) == #[trigger] m.get(i2),
        final(cache).compute_pipeline_cache.grows_from(old(cache).compute_pipeline_cache),
        heaps_grow(*old(cache), *final(cache)),
        final(cache).render_pass_cache == old(cache).render_pass_cache,
        final(cache).framebuffer_cache == old(cache).framebuffer_cache,
        final(cache).wf(),
        final(cache).attachment_cache == old(cache).attachment_cache,
        final(cache).buffer_cache == old(cache).buffer_cache,
        forall|i: usize| i < g.owned_resources@.len() ==> (#[trigger] m.get(i) is Some <==> g.owned_resources@[i as int] is ComputePipeline),
        forall|i: usize|
            i < g.owned_resources@.len() && g.owned_resources@[i as int] is ComputePipeline ==> #[trigger] m.get(i)->Some_0
                < final(cache).compute_pipeline_cache.keys@.len() && final(cache).compute_pipeline_cache.views()[m.get(i)->Some_0 as int]
                == compute_view_of(*g, g.owned_resources@[i as int]),
        final(cache).raster_pipeline_cache == old(cache).raster_pipeline_cache,
{
    let mut map: VirtualToPhysicalResourceMap<usize> = VirtualToPhysicalResourceMap::new();
    let mut i: usize = 0;
    while i < g.owned_resources.len()
        invariant
            cache.compute_pipeline_cache.grows_from(old(cache).compute_pipeline_cache),
            heaps_grow(*old(cache), *cache),
            cache.render_pass_cache == old(cache).render_pass_cache,
            cache.framebuffer_cache == old(cache).framebuffer_cache,
            graph_valid(*g),
            i <= g.owned_resources@.len(),
            cache.wf(),
            cache.attachment_cache == old(cache).attachment_cache,
            cache.buffer_cache == old(cache).buffer_cache,
            forall|h: usize| h < i ==> (#[trigger] map.get(h) is Some <==> g.owned_resources@[h as int] is ComputePipeline),
            forall|h: usize| h >= i ==> #[trigger] map.get(h) is None,
            forall|h: usize|
                h < i && g.owned_resources@[h as int] is ComputePipeline ==> #[trigger] map.get(h)->Some_0
                    < cache.compute_pipeline_cache.keys@.len() && cache.compute_pipeline_cache.views()[map.get(h)->Some_0 as int]
                    == compute_view_of(*g, g.owned_resources@[h as int]),
            cache.raster_pipeline_cache == old(cache).raster_pipeline_cache,
        decreases g.owned_resources@.len() - i,
    {
        match &g.owned_resources[i] {
            GraphOwnedResource::ComputePipeline { cs, descriptor_layouts } => {
                assert(crate::valid::resource_valid(*g, g.owned_resources@[i as int]));
                let cs = shader_module(g, cs.id);
                let ghost cache0 = *cache;
                register_layouts(cache, descriptor_layouts);
                proof {
                    lemma_heaps_grow_trans(*old(cache), cache0, *cache);
                }
                let key = ComputePipelineCacheKey { cs, descriptor_layouts: vec_copy(descriptor_layouts) };
                proof {
                    assert(key_views(key.descriptor_layouts@) =~= key.descriptor_layouts@);
                }
                let ghost table0 = cache.compute_pipeline_cache;
                let ghost map0 = map;
                let (index, _) = cache.compute_pipeline_cache.intern(key);
                proof {
                    crate::pool::lemma_grows_trans(old(cache).compute_pipeline_cache, table0, cache.compute_pipeline_cache);
                }
                map.map_physical(i, index);
                proof {
                    assert forall|h: usize|
                        h < i + 1 && g.owned_resources@[h as int] is ComputePipeline implies #[trigger] map.get(h)->Some_0
                            < cache.compute_pipeline_cache.keys@.len() && cache.compute_pipeline_cache.views()[map.get(h)->Some_0 as int]
                            == compute_view_of(*g, g.owned_resources@[h as int]) by {
                        if h < i {
                            assert(map.get(h) == map0.get(h));
                            let x = map0.get(h)->Some_0 as int;
                            assert(cache.compute_pipeline_cache.views()[x] == table0.views()[x]);
                        }
                    }
                }
            },
            _ => {},
        }
        i = i + 1;
    }
    proof {
        assert forall|i1: usize, i2: usize|
            i1 < g.owned_resources@.len() && i2 < g.owned_resources@.len() && g.owned_resources@[i1 as int] is ComputePipeline
                && g.owned_resources@[i2 as int] is ComputePipeline && compute_view_of(*g, g.owned_resources@[i1 as int])
                == compute_view_of(*g, g.owned_resources@[i2 as int]) implies #[trigger] map.get(i1) == #[trigger] map.get(i2) by {
            lemma_same_key_same_index(cache.compute_pipeline_cache, map.get(i1)->Some_0 as int, map.get(i2)->Some_0 as int);
        }
    }
    map
}

/// Appends a `CreateRenderPass` for each render pass of `t` from index `from` on.
pub fn emit_render_passes(t: &KeyTable<RenderPassCacheKey>, from: usize, out: &mut Vec<AllocCmd>)
    requires
        from <= t.keys@.len(),
    ensures
        final(out)@.len() == old(out)@.len() + (t.keys@.len() - from),
        forall|j: int| 0 <= j < old(out)@.len() ==> #[trigger] final(out)@[j] == old(out)@[j],
        forall|x: int|
            0 <= x < t.keys@.len() - from ==> {
                let c = #[trigger] final(out)@[old(out)@.len() + x];
                &&& c is CreateRenderPass
                &&& c->CreateRenderPass_index == from + x
                &&& c->CreateRenderPass_key@ == t.views()[from + x]
            },
{
    let ghost start = out@;
    let mut x: usize = from;
    while x < t.keys.len()
        invariant
            from <= x <= t.keys@.len(),
            out@.len() == start.len() + (x - from),
            forall|j: int| 0 <= j < start.len() ==> #[trigger] out@[j] == start[j],
            forall|y: int|
                0 <= y < x - from ==> {
                    let c = #[trigger] out@[start.len() + y];
                    &&& c is CreateRenderPass
                    &&& c->CreateRenderPass_index == from + y
                    &&& c->CreateRenderPass_key@ == t.views()[from + y]
                },
        decreases t.keys@.len() - x,
    {
        out.push(AllocCmd::CreateRenderPass { index: x, key: t.key_at(x) });
        x = x + 1;
    }
}

/// Appends a `CreateFramebuffer` for each framebuffer of `t` from index `from` on.
pub fn emit_framebuffers(t: &KeyTable<FramebufferCacheKey>, from: usize, out: &mut Vec<AllocCmd>)
    requires
        from <= t.keys@.len(),
    ensures
        final(out)@.len() == old(out)@.len() + (t.keys@.len() - from),
        forall|j: int| 0 <= j < old(out)@.len() ==> #[trigger] final(out)@[j] == old(out)@[j],
        forall|x: int|
            0 <= x < t.keys@.len() - from ==> {
                let c = #[trigger] final(out)@[old(out)@.len() + x];
                &&& c is CreateFramebuffer
                &&& c->CreateFramebuffer_index == from + x
                &&& c->CreateFramebuffer_key@ == t.views()[from + x]
            },
{
    let ghost start = out@;
    let mut x: usize = from;
    while x < t.keys.len()
        invariant
            from <= x <= t.keys@.len(),
            out@.len() == start.len() + (x - from),
            forall|j: int| 0 <= j < start.len() ==> #[trigger] out@[j] == start[j],
            forall|y: int|
                0 <= y < x - from ==> {
                    let c = #[trigger] out@[start.len() + y];
                    &&& c is CreateFramebuffer
                    &&& c->CreateFramebuffer_index == from + y
                    &&& c->CreateFramebuffer_key@ == t.views()[from + y]
                },
        decreases t.keys@.len() - x,
    {
        out.push(AllocCmd::CreateFramebuffer { index: x, key: t.key_at(x) });
        x = x + 1;
    }
}

/// Appends a `CreateRasterPipeline` for each pipeline of `t` from index `from` on.
pub fn emit_raster_pipelines(t: &KeyTable<RasterPipelineCacheKey>, from: usize, out: &mut Vec<AllocCmd>)
    requires
        from <= t.keys@.len(),
    ensures
        final(out)@.len() == old(out)@.len() + (t.keys@.len() - from),
        forall|j: int| 0 <= j < old(out)@.len() ==> #[trigger] final(out)@[j] == old(out)@[j],
        forall|x: int|
            0 <= x < t.keys@.len() - from ==> {
                let c = #[trigger] final(out)@[old(out)@.len() + x];
                &&& c is CreateRasterPipeline
                &&& c->CreateRasterPipeline_index == from + x
                &&& c->CreateRasterPipeline_key@ == t.views()[from + x]
            },
{
    let ghost start = out@;
    let mut x: usize = from;
    while x < t.keys.len()
        invariant
            from <= x <= t.keys@.len(),
            out@.len() == start.len() + (x - from),
            forall|j: int| 0 <= j < start.len() ==> #[trigger] out@[j] == start[j],
            forall|y: int|
                0 <= y < x - from ==> {
                    let c = #[trigger] out@[start.len() + y];
                    &&& c is CreateRasterPipeline
                    &&& c->CreateRasterPipeline_index == from + y
                    &&& c->CreateRasterPipeline_key@ == t.views()[from + y]
                },
        decreases t.keys@.len() - x,
    {
        out.push(AllocCmd::CreateRasterPipeline { index: x, key: t.key_at(x) });
        x = x + 1;
    }
}

/// Appends a `CreateComputePipeline` for each pipeline of `t` from index `from` on.
pub fn emit_compute_pipelines(t: &KeyTable<ComputePipelineCacheKey>, from: usize, out: &mut Vec<AllocCmd>)
    requires
        from <= t.keys@.len(),
    ensures
        final(out)@.len() == old(out)@.len() + (t.keys@.len() - from),
        forall|j: int| 0 <= j < old(out)@.len() ==> #[trigger] final(out)@[j] == old(out)@[j],
        forall|x: int|
            0 <= x < t.keys@.len() - from ==> {
                let c = #[trigger] final(out)@[old(out)@.len() + x];
                &&& c is CreateComputePipeline
                &&& c->CreateComputePipeline_index == from + x
                &&& c->CreateComputePipeline_key@ == t.views()[from + x]
            },
{
    let ghost start = out@;
    let mut x: usize = from;
    while x < t.keys.len()
        invariant
            from <= x <= t.keys@.len(),
            out@.len() == start.len() + (x - from),
            forall|j: int| 0 <= j < start.len() ==> #[trigger] out@[j] == start[j],
            forall|y: int|
                0 <= y < x - from ==> {
                    let c = #[trigger] out@[start.len() + y];
                    &&& c is CreateComputePipeline
                    &&& c->CreateComputePipeline_index == from + y
                    &&& c->CreateComputePipeline_key@ == t.views()[from + y]
                },
        decreases t.keys@.len() - x,
    {
        out.push(AllocCmd::CreateComputePipeline { index: x, key: t.key_at(x) });
        x = x + 1;
    }
}

/// Appends a `CreateDescriptorHeap` for each layout of `t` from index `from` on.
pub fn emit_descriptor_heaps(t: &KeyTable<DescriptorSetInfoId>, from: usize, out: &mut Vec<AllocCmd>)
    requires
        from <= t.keys@.len(),
    ensures
        final(out)@.len() == old(out)@.len() + (t.keys@.len() - from),
        forall|j: int| 0 <= j < old(out)@.len() ==> #[trigger] final(out)@[j] == old(out)@[j],
        forall|x: int|
            0 <= x < t.keys@.len() - from ==> #[trigger] final(out)@[old(out)@.len() + x] == (AllocCmd::CreateDescriptorHeap {
                heap: (from + x) as usize,
                layout: t.views()[from + x],
            }),
{
    let ghost start = out@;
    let mut x: usize = from;
    while x < t.keys.len()
        invariant
            from <= x <= t.keys@.len(),
            out@.len() == start.len() + (x - from),
            forall|j: int| 0 <= j < start.len() ==> #[trigger] out@[j] == start[j],
            forall|y: int|
                0 <= y < x - from ==> #[trigger] out@[start.len() + y] == (AllocCmd::CreateDescriptorHeap {
                    heap: (from + y) as usize,
                    layout: t.views()[from + y],
                }),
        decreases t.keys@.len() - x,
    {
        out.push(AllocCmd::CreateDescriptorHeap { heap: x, layout: t.keys[x] });
        x = x + 1;
    }
}

/// How many descriptor sets heap `h` held in `c`; a heap it did not have held none.
pub open spec fn heap_len(c: RenderGraphCache, h: int) -> nat {
    if 0 <= h < c.descriptor_heaps@.len() {
        c.descriptor_heaps@[h].keys@.len()
    } else {
        0
    }
}

/// The number of descriptor sets in each heap of `c`.
pub fn heap_lengths(c: &RenderGraphCache) -> (lens: Vec<usize>)
    ensures
        lens@.len() == c.descriptor_heaps@.len(),
        forall|h: int| 0 <= h < lens@.len() ==> #[trigger] lens@[h] == heap_len(*c, h),
{
    let mut lens: Vec<usize> = Vec::new();
    let mut h: usize = 0;
    while h < c.descriptor_heaps.len()
        invariant
            h <= c.descriptor_heaps@.len(),
            lens@.len() == h,
            forall|y: int| 0 <= y < h ==> #[trigger] lens@[y] == heap_len(*c, y),
        decreases c.descriptor_heaps@.len() - h,
    {
        lens.push(c.descriptor_heaps[h].keys.len());
        h = h + 1;
    }
    lens
}

/// Appends, for each heap of `after`, an `AllocDescriptors` for the sets it
/// gained since the heaps held `before_lens` sets.
pub fn emit_descriptor_sets(before_lens: &Vec<usize>, after: &RenderGraphCache, out: &mut Vec<AllocCmd>)
    requires
        before_lens@.len() <= after.descriptor_heaps@.len(),
    ensures
        final(out)@.len() == old(out)@.len() + after.descriptor_heaps@.len(),
        forall|j: int| 0 <= j < old(out)@.len() ==> #[trigger] final(out)@[j] == old(out)@[j],
        forall|h: int|
            0 <= h < after.descriptor_heaps@.len() ==> #[trigger] final(out)@[old(out)@.len() + h] == (AllocCmd::AllocDescriptors {
                heap: h as usize,
                from: if h < before_lens@.len() { before_lens@[h] } else { 0 },
                to: heap_len(*after, h) as usize,
            }),
{
    let ghost start = out@;
    let mut h: usize = 0;
    while h < after.descriptor_heaps.len()
        invariant
            before_lens@.len() <= after.descriptor_heaps@.len(),
            h <= after.descriptor_heaps@.len(),
            out@.len() == start.len() + h,
            forall|j: int| 0 <= j < start.len() ==> #[trigger] out@[j] == start[j],
            forall|y: int|
                0 <= y < h ==> #[trigger] out@[start.len() + y] == (AllocCmd::AllocDescriptors {
                    heap: y as usize,
                    from: if y < before_lens@.len() { before_lens@[y] } else { 0 },
                    to: heap_len(*after, y) as usize,
                }),
        decreases after.descriptor_heaps@.len() - h,
    {
        let from = if h < before_lens.len() {
            before_lens[h]
        } else {
            0
        };
        out.push(AllocCmd::AllocDescriptors { heap: h, from, to: after.descriptor_heaps[h].keys.len() });
        h = h + 1;
    }
}

} // verus!
