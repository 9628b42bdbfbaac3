use vstd::prelude::*;
use crate::graph::RenderGraph;
use crate::cache::{AttachmentCacheKey, RenderGraphCache};
use crate::pool::{CacheKey, PhysicalPool};
use crate::resolve::{deps_closed, depends_on, is_execution_order, needed};
use crate::allocate::{attachment_keys, fresh_count, occurrences, opt_views};
use crate::execute::attachments_grown;

verus! {

/// Number of requests in `ks`.
pub open spec fn count_some<V>(ks: Seq<Option<V>>) -> nat
    decreases ks.len(),
{
    if ks.len() == 0 {
        0
    } else {
        count_some(ks.drop_last()) + if ks.last() is Some {
            1nat
        } else {
            0nat
        }
    }
}

/// From empty pools every request needs a new object.
pub proof fn lemma_fresh_from_empty<K: CacheKey>(pool: PhysicalPool<K>, ks: Seq<Option<K::V>>)
    requires
        forall|k: K::V| pool.pool_len(k) == 0,
    ensures
        fresh_count(pool, ks) == count_some(ks),
    decreases ks.len(),
{
    if ks.len() > 0 {
        lemma_fresh_from_empty(pool, ks.drop_last());
    }
}

/// Requests that the pools already cover need no new object.
pub proof fn lemma_fresh_when_covered<K: CacheKey>(pool: PhysicalPool<K>, ks: Seq<Option<K::V>>)
    requires
        forall|k: K::V| #[trigger] occurrences(ks, k) <= pool.pool_len(k),
    ensures
        fresh_count(pool, ks) == 0,
    decreases ks.len(),
{
    if ks.len() > 0 {
        let init = ks.drop_last();
        assert forall|k: K::V| #[trigger] occurrences(init, k) <= pool.pool_len(k) by {
            assert(occurrences(ks, k) >= occurrences(init, k));
        }
        lemma_fresh_when_covered(pool, init);
        match ks.last() {
            Some(k) => {
                assert(occurrences(ks, k) == occurrences(init, k) + 1);
            },
            None => {},
        }
    }
}

/// Executing a graph on a cache with no attachments makes exactly one
/// physical image per virtual attachment of the graph.
pub proof fn lemma_first_execution_allocates_each(g: RenderGraph, before: RenderGraphCache, after: RenderGraphCache)
    requires
        forall|k: AttachmentCacheKey| before.attachment_cache.pool_len(k) == 0,
        attachments_grown(before, after, g),
    ensures
        after.attachment_cache.count == before.attachment_cache.count + count_some(attachment_keys(g)),
{
    lemma_fresh_from_empty(before.attachment_cache, opt_views(attachment_keys(g)));
    lemma_count_some_views(attachment_keys(g));
}

proof fn lemma_count_some_views(ks: Seq<Option<AttachmentCacheKey>>)
    ensures
        count_some(opt_views(ks)) == count_some(ks),
    decreases ks.len(),
{
    if ks.len() > 0 {
        assert(opt_views(ks).drop_last() =~= opt_views(ks.drop_last()));
        lemma_count_some_views(ks.drop_last());
    }
}

/// Executing a graph on a cache whose pools already hold, for every shape,
/// at least as many images as the graph has attachments of that shape makes
/// no new image.
pub proof fn lemma_covered_execution_allocates_none(g: RenderGraph, before: RenderGraphCache, after: RenderGraphCache)
    requires
        forall|k: AttachmentCacheKey| occurrences(opt_views(attachment_keys(g)), k) <= #[trigger] before.attachment_cache.pool_len(k),
        attachments_grown(before, after, g),
    ensures
        after.attachment_cache.count == before.attachment_cache.count,
{
    lemma_fresh_when_covered(before.attachment_cache, opt_views(attachment_keys(g)));
}

/// Executing the same graph twice in a row: the second execution makes no
/// new image, it reuses the pooled ones.
pub proof fn lemma_reexecution_reuses_attachments(
    g: RenderGraph,
    first: RenderGraphCache,
    second: RenderGraphCache,
    third: RenderGraphCache,
)
    requires
        attachments_grown(first, second, g),
        attachments_grown(second, third, g),
    ensures
        third.attachment_cache.count == second.attachment_cache.count,
{
    assert forall|k: AttachmentCacheKey| occurrences(opt_views(attachment_keys(g)), k) <= #[trigger] second.attachment_cache.pool_len(k) by {}
    lemma_covered_execution_allocates_none(g, second, third);
}

/// A pass other than the root that no pass reads from is not in an
/// execution order for the root.
pub proof fn lemma_unread_pass_not_executed(g: RenderGraph, root: int, order: Seq<usize>, b: int)
    requires
        is_execution_order(g, root, order),
        b != root,
        forall|q: int| !depends_on(g, q, b),
    ensures
        forall|i: int| 0 <= i < order.len() ==> order[i] != b,
{
    let t = Set::new(|p: int| p != b);
    assert(deps_closed(g, t));
    assert(t.contains(root));
    assert(!needed(g, root, b)) by {
        reveal(needed);
    }
}

/// In an execution order, a pass that reads what another pass created runs
/// after it.
pub proof fn lemma_producer_runs_first(g: RenderGraph, root: int, order: Seq<usize>, i: int, p: int)
    requires
        is_execution_order(g, root, order),
        0 <= i < order.len(),
        depends_on(g, order[i] as int, p),
    ensures
        exists|j: int| 0 <= j < i && order[j] == p,
{
}

} // verus!
