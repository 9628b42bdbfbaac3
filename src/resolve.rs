use vstd::prelude::*;
use crate::graph::RenderGraph;

verus! {

/// The pass that created resource `id`.
pub open spec fn owner_of(g: RenderGraph, id: usize) -> int {
    g.resource_to_owning_pass@[id as int].id as int
}

/// The side table is complete and every read names a resource whose
/// creating pass is in the graph.
pub open spec fn reads_resolvable(g: RenderGraph) -> bool {
    &&& g.resource_to_owning_pass@.len() == g.owned_resources@.len()
    &&& forall|r: int|
        0 <= r < g.resource_to_owning_pass@.len() ==> #[trigger] g.resource_to_owning_pass@[r].id
            < g.passes@.len()
    &&& forall|q: int, i: int|
        0 <= q < g.passes@.len() && 0 <= i < g.passes@[q].read_attachments@.len()
            ==> #[trigger] g.passes@[q].read_attachments@[i].id < g.owned_resources@.len()
    &&& forall|q: int, i: int|
        0 <= q < g.passes@.len() && 0 <= i < g.passes@[q].read_buffers@.len()
            ==> #[trigger] g.passes@[q].read_buffers@[i].id < g.owned_resources@.len()
}

/// Pass `q` reads an attachment or a buffer that pass `p` created.
#[verifier::opaque]
pub open spec fn depends_on(g: RenderGraph, q: int, p: int) -> bool {
    &&& 0 <= q < g.passes@.len()
    &&& {
        ||| exists|i: int|
            0 <= i < g.passes@[q].read_attachments@.len() && owner_of(
                g,
                #[trigger] g.passes@[q].read_attachments@[i].id,
            ) == p
        ||| exists|i: int|
            0 <= i < g.passes@[q].read_buffers@.len() && owner_of(
                g,
                #[trigger] g.passes@[q].read_buffers@[i].id,
            ) == p
    }
}

/// Every pass of `t` has the passes it depends on in `t` too.
pub open spec fn deps_closed(g: RenderGraph, t: Set<int>) -> bool {
    forall|q: int, p: int| #[trigger] t.contains(q) && #[trigger] depends_on(g, q, p) ==> t.contains(p)
}

/// Pass `p` is needed to produce pass `root`: it lies in every set that holds
/// `root` and is closed under dependencies.
#[verifier::opaque]
pub open spec fn needed(g: RenderGraph, root: int, p: int) -> bool {
    forall|t: Set<int>| #[trigger] deps_closed(g, t) && t.contains(root) ==> t.contains(p)
}

/// Every pass of `s` depends on some pass of `s`: no order can put all of
/// them after what they depend on.
#[verifier::opaque]
pub open spec fn stuck(g: RenderGraph, s: Set<int>) -> bool {
    forall|x: int| #[trigger] s.contains(x) ==> exists|y: int| s.contains(y) && depends_on(g, x, y)
}

/// The passes needed for `root` depend on one another in a cycle.
pub open spec fn has_cycle_from(g: RenderGraph, root: int) -> bool {
    exists|s: Set<int>|
        #[trigger] stuck(g, s) && (exists|x: int| s.contains(x)) && (forall|x: int|
            s.contains(x) ==> needed(g, root, x))
}

/// `order` lists each pass needed for `root` exactly once, and every pass
/// after all the passes it depends on.
pub open spec fn is_execution_order(g: RenderGraph, root: int, order: Seq<usize>) -> bool {
    &&& forall|i: int, j: int| 0 <= i < j < order.len() ==> order[i] != order[j]
    &&& forall|i: int| 0 <= i < order.len() ==> needed(g, root, #[trigger] order[i] as int)
    &&& forall|p: int| needed(g, root, p) ==> exists|i: int| 0 <= i < order.len() && #[trigger] order[i] == p
    &&& forall|i: int, p: int|
        0 <= i < order.len() && #[trigger] depends_on(g, order[i] as int, p) ==> exists|j: int|
            0 <= j < i && #[trigger] order[j] == p
}

/// Number of `true` entries.
pub open spec fn count_true(s: Seq<bool>) -> nat
    decreases s.len(),
{
    if s.len() == 0 {
        0
    } else {
        count_true(s.drop_last()) + if s.last() {
            1nat
        } else {
            0nat
        }
    }
}

proof fn lemma_count_true_bound(s: Seq<bool>)
    ensures
        count_true(s) <= s.len(),
    decreases s.len(),
{
    if s.len() > 0 {
        lemma_count_true_bound(s.drop_last());
    }
}

proof fn lemma_count_true_set(s: Seq<bool>, i: int)
    requires
        0 <= i < s.len(),
        !s[i],
    ensures
        count_true(s.update(i, true)) == count_true(s) + 1,
    decreases s.len(),
{
    let u = s.update(i, true);
    if i == s.len() - 1 {
        assert(u.drop_last() =~= s.drop_last());
    } else {
        assert(u.drop_last() =~= s.drop_last().update(i, true));
        lemma_count_true_set(s.drop_last(), i);
    }
}

fn all_false(n: usize) -> (v: Vec<bool>)
    ensures
        v@.len() == n,
        forall|i: int| 0 <= i < n ==> !v@[i],
        count_true(v@) == 0,
{
    let mut v: Vec<bool> = Vec::new();
    let mut i: usize = 0;
    while i < n
        invariant
            i <= n,
            v@.len() == i,
            forall|j: int| 0 <= j < i ==> !v@[j],
            count_true(v@) == 0,
        decreases n - i,
    {
        let ghost before = v@;
        v.push(false);
        proof {
            assert(v@.drop_last() =~= before);
        }
        i = i + 1;
    }
    v
}

/// Pass `x` waits on some pass that `placed` does not mark.
pub open spec fn blocked(g: RenderGraph, placed: Seq<bool>, x: int) -> bool {
    exists|y: int| 0 <= y < placed.len() && !placed[y] && depends_on(g, x, y)
}

proof fn lemma_needed_step(g: RenderGraph, root: int, x: int, y: int)
    requires
        needed(g, root, x),
        depends_on(g, x, y),
    ensures
        needed(g, root, y),
{
    reveal(needed);
    assert forall|t: Set<int>| #[trigger] deps_closed(g, t) && t.contains(root) implies t.contains(y) by {
        assert(t.contains(x));
    }
}

/// Passes that are needed but could not be placed, each waiting on another
/// such pass, witness a cycle.
proof fn lemma_unplaced_is_stuck(g: RenderGraph, root: int, marked: Seq<bool>, placed: Seq<bool>, p: int)
    requires
        marked.len() == g.passes@.len(),
        placed.len() == g.passes@.len(),
        0 <= p < g.passes@.len(),
        marked[p],
        !placed[p],
        forall|x: int| 0 <= x < g.passes@.len() ==> (marked[x] <==> needed(g, root, x)),
        forall|x: int| 0 <= x < g.passes@.len() && marked[x] && !placed[x] ==> #[trigger] blocked(g, placed, x),
    ensures
        has_cycle_from(g, root),
{
    let n = g.passes@.len();
    let s = Set::new(|x: int| 0 <= x < n && marked[x] && !placed[x]);
    assert(stuck(g, s)) by {
        reveal(stuck);
        assert forall|x: int| #[trigger] s.contains(x) implies exists|y: int| s.contains(y) && depends_on(g, x, y) by {
            assert(blocked(g, placed, x));
            let y = choose|y: int| 0 <= y < n && !placed[y] && depends_on(g, x, y);
            lemma_needed_step(g, root, x, y);
            assert(s.contains(y));
        }
    }
    assert(s.contains(p));
    assert forall|x: int| s.contains(x) implies needed(g, root, x) by {}
    assert(stuck(g, s) && (exists|x: int| s.contains(x)) && (forall|x: int| s.contains(x) ==> needed(g, root, x)));
}

impl RenderGraph {
    /// Marks the passes needed for `root`.
    fn needed_passes(&self, root: usize) -> (marked: Vec<bool>)
        requires
            reads_resolvable(*self),
            root < self.passes@.len(),
        ensures
            marked@.len() == self.passes@.len(),
            forall|p: int| 0 <= p < self.passes@.len() ==> (marked@[p] <==> needed(*self, root as int, p)),
            forall|p: int| needed(*self, root as int, p) ==> 0 <= p < self.passes@.len(),
    {
        reveal(needed);
        let n = self.passes.len();
        let mut marked = all_false(n);
        let mut stack: Vec<usize> = Vec::new();
        proof {
            lemma_count_true_set(marked@, root as int);
            reveal(needed);
        }
        marked.set(root, true);
        stack.push(root);
        proof {
            assert(stack@[0] == root);
            assert forall|q: int| 0 <= q < n && marked@[q] implies q == root as int by {}
        }
        while stack.len() > 0
            invariant
                reads_resolvable(*self),
                n == self.passes@.len(),
                root < n,
                marked@.len() == n,
                marked@[root as int],
                forall|p: int| 0 <= p < n && #[trigger] marked@[p] ==> needed(*self, root as int, p),
                forall|k: int| 0 <= k < stack@.len() ==> #[trigger] stack@[k] < n && marked@[stack@[k] as int],
                forall|i: int, j: int| 0 <= i < j < stack@.len() ==> stack@[i] != stack@[j],
                forall|q: int, p: int|
                    0 <= q < n && marked@[q] && !stack@.contains(q as usize) && #[trigger] depends_on(*self, q, p)
                        ==> 0 <= p < n && marked@[p],
                count_true(marked@) <= n,
            decreases n - count_true(marked@), stack@.len(),
        {
            let ghost c0 = count_true(marked@);
            let ghost s0 = stack@.len();
            let ghost st0 = stack@;
            let q = stack.pop().unwrap();
            let deps = self.dependencies(q);
            proof {
                assert(stack@ =~= st0.drop_last());
                assert(!stack@.contains(q)) by {
                    if stack@.contains(q) {
                        let k = choose|k: int| 0 <= k < stack@.len() && stack@[k] == q;
                        assert(st0[k] == st0[st0.len() - 1]);
                    }
                }
                assert forall|q2: int| 0 <= q2 < n && #[trigger] st0.contains(q2 as usize) && q2 != q implies stack@.contains(q2 as usize) by {
                    let k = choose|k: int| 0 <= k < st0.len() && st0[k] == q2 as usize;
                    assert(k != st0.len() - 1);
                    assert(stack@[k] == q2 as usize);
                }
            }
            let mut k: usize = 0;
            while k < deps.len()
                invariant
                    reads_resolvable(*self),
                    n == self.passes@.len(),
                    root < n,
                    q < n,
                    marked@.len() == n,
                    marked@[root as int],
                    marked@[q as int],
                    !stack@.contains(q),
                    k <= deps@.len(),
                    forall|j: int| 0 <= j < deps@.len() ==> #[trigger] deps@[j] < n,
                    forall|p: int| depends_on(*self, q as int, p) <==> exists|j: int| 0 <= j < deps@.len() && #[trigger] deps@[j] == p,
                    forall|j: int| 0 <= j < k ==> marked@[#[trigger] deps@[j] as int],
                    forall|p: int| 0 <= p < n && #[trigger] marked@[p] ==> needed(*self, root as int, p),
                    forall|k: int| 0 <= k < stack@.len() ==> #[trigger] stack@[k] < n && marked@[stack@[k] as int],
                    forall|i: int, j: int| 0 <= i < j < stack@.len() ==> stack@[i] != stack@[j],
                    forall|q2: int, p: int|
                        0 <= q2 < n && q2 != q && marked@[q2] && !stack@.contains(q2 as usize) && #[trigger] depends_on(*self, q2, p)
                            ==> 0 <= p < n && marked@[p],
                    count_true(marked@) <= n,
                    count_true(marked@) >= c0,
                    count_true(marked@) > c0 || stack@.len() < s0,
                decreases deps@.len() - k,
            {
                let p = deps[k];
                if !marked[p] {
                    proof {
                        assert(depends_on(*self, q as int, p as int));
                        lemma_needed_step(*self, root as int, q as int, p as int);
                        lemma_count_true_set(marked@, p as int);
                        lemma_count_true_bound(marked@.update(p as int, true));
                    }
                    let ghost mk0 = marked@;
                    marked.set(p, true);
                    let ghost before = stack@;
                    stack.push(p);
                    proof {
                        assert forall|x: usize| before.contains(x) implies stack@.contains(x) by {
                            let i = choose|i: int| 0 <= i < before.len() && before[i] == x;
                            assert(stack@[i] == x);
                        }
                        assert forall|x: usize| stack@.contains(x) && x != p implies before.contains(x) by {
                            let i = choose|i: int| 0 <= i < stack@.len() && stack@[i] == x;
                            assert(before[i] == x);
                        }
                        assert forall|q2: int, p2: int|
                            0 <= q2 < n && q2 != q && marked@[q2] && !stack@.contains(q2 as usize) && #[trigger] depends_on(*self, q2, p2)
                                implies 0 <= p2 < n && marked@[p2] by {
                            assert(!before.contains(q2 as usize));
                            assert(stack@[stack@.len() - 1] == p);
                            assert(q2 != p as int);
                            assert(mk0[q2]);
                        }
                    }
                }
                k = k + 1;
            }
        }
        proof {
            reveal(needed);
            let t = Set::new(|p: int| 0 <= p < n && marked@[p]);
            assert(deps_closed(*self, t));
            assert(t.contains(root as int));
            assert forall|p: int| 0 <= p < n && needed(*self, root as int, p) implies marked@[p] by {
                assert(t.contains(p));
            }
            assert forall|p: int| needed(*self, root as int, p) implies 0 <= p < n by {
                assert(t.contains(p));
            }
        }
        marked
    }

    /// Whether every pass in `deps` is marked in `placed`.
    fn all_placed(deps: &Vec<usize>, placed: &Vec<bool>) -> (r: bool)
        requires
            forall|j: int| 0 <= j < deps@.len() ==> #[trigger] deps@[j] < placed@.len(),
        ensures
            r == forall|j: int| 0 <= j < deps@.len() ==> placed@[#[trigger] deps@[j] as int],
    {
        let mut k: usize = 0;
        while k < deps.len()
            invariant
                k <= deps@.len(),
                forall|j: int| 0 <= j < deps@.len() ==> #[trigger] deps@[j] < placed@.len(),
                forall|j: int| 0 <= j < k ==> placed@[#[trigger] deps@[j] as int],
            decreases deps@.len() - k,
        {
            if !placed[deps[k]] {
                return false;
            }
            k = k + 1;
        }
        true
    }

    /// Orders the passes needed for `root` so that each comes after the
    /// passes it depends on, or finds that they depend on one another in a
    /// cycle. Passes are placed by sweeps over the pass indices, each sweep
    /// placing every pass whose dependencies are already placed.
    pub fn resolve_pass_dependencies(&self, root: usize) -> (r: Option<Vec<usize>>)
        requires
            reads_resolvable(*self),
            root < self.passes@.len(),
        ensures
            match r {
                Some(order) => !has_cycle_from(*self, root as int) && is_execution_order(
                    *self,
                    root as int,
                    order@,
                ),
                None => has_cycle_from(*self, root as int),
            },
    {
        let n = self.passes.len();
        let marked = self.needed_passes(root);
        let mut placed = all_false(n);
        let mut order: Vec<usize> = Vec::new();
        loop
            invariant
                reads_resolvable(*self),
                n == self.passes@.len(),
                root < n,
                marked@.len() == n,
                placed@.len() == n,
                forall|p: int| 0 <= p < n ==> (marked@[p] <==> needed(*self, root as int, p)),
                forall|p: int| needed(*self, root as int, p) ==> 0 <= p < n,
                forall|p: int| 0 <= p < n && #[trigger] placed@[p] ==> marked@[p],
                forall|i: int| 0 <= i < order@.len() ==> #[trigger] order@[i] < n && placed@[order@[i] as int],
                forall|p: int| 0 <= p < n && #[trigger] placed@[p] ==> exists|i: int| 0 <= i < order@.len() && order@[i] == p,
                forall|i: int, j: int| 0 <= i < j < order@.len() ==> order@[i] != order@[j],
                forall|i: int, p: int|
                    0 <= i < order@.len() && #[trigger] depends_on(*self, order@[i] as int, p) ==> exists|j: int|
                        0 <= j < i && #[trigger] order@[j] == p,
                forall|x: int, s: Set<int>| 0 <= x < n && placed@[x] && #[trigger] stuck(*self, s) ==> !#[trigger] s.contains(x),
                count_true(placed@) <= n,
            ensures
                forall|x: int| 0 <= x < n && marked@[x] && !placed@[x] ==> #[trigger] blocked(*self, placed@, x),
            decreases n - count_true(placed@),
        {
            let ghost c0 = count_true(placed@);
            let mut progress = false;
            let mut q: usize = 0;
            while q < n
                invariant
                    reads_resolvable(*self),
                    n == self.passes@.len(),
                    root < n,
                    q <= n,
                    marked@.len() == n,
                    placed@.len() == n,
                    forall|p: int| 0 <= p < n ==> (marked@[p] <==> needed(*self, root as int, p)),
                    forall|p: int| needed(*self, root as int, p) ==> 0 <= p < n,
                    forall|p: int| 0 <= p < n && #[trigger] placed@[p] ==> marked@[p],
                    forall|i: int| 0 <= i < order@.len() ==> #[trigger] order@[i] < n && placed@[order@[i] as int],
                    forall|p: int| 0 <= p < n && #[trigger] placed@[p] ==> exists|i: int| 0 <= i < order@.len() && order@[i] == p,
                    forall|i: int, j: int| 0 <= i < j < order@.len() ==> order@[i] != order@[j],
                    forall|i: int, p: int|
                        0 <= i < order@.len() && #[trigger] depends_on(*self, order@[i] as int, p) ==> exists|j: int|
                            0 <= j < i && #[trigger] order@[j] == p,
                    forall|x: int, s: Set<int>| 0 <= x < n && placed@[x] && #[trigger] stuck(*self, s) ==> !#[trigger] s.contains(x),
                    count_true(placed@) <= n,
                    progress ==> count_true(placed@) > c0,
                    !progress ==> count_true(placed@) == c0,
                    !progress ==> forall|x: int| 0 <= x < q && marked@[x] && !placed@[x] ==> #[trigger] blocked(*self, placed@, x),
                decreases n - q,
            {
                if marked[q] && !placed[q] {
                    let deps = self.dependencies(q);
                    if Self::all_placed(&deps, &placed) {
                        proof {
                            assert forall|s: Set<int>| #[trigger] stuck(*self, s) implies !s.contains(q as int) by {
                                if s.contains(q as int) {
                                    reveal(stuck);
                                    let y = choose|y: int| s.contains(y) && depends_on(*self, q as int, y);
                                    let j = choose|j: int| 0 <= j < deps@.len() && #[trigger] deps@[j] == y;
                                    assert(placed@[deps@[j] as int]);
                                }
                            }
                            lemma_count_true_set(placed@, q as int);
                            lemma_count_true_bound(placed@.update(q as int, true));
                        }
                        let ghost placed0 = placed@;
                        let ghost order0 = order@;
                        placed.set(q, true);
                        order.push(q);
                        progress = true;
                        proof {
                            assert forall|p: int| 0 <= p < n && #[trigger] placed@[p] implies exists|i: int| 0 <= i < order@.len() && order@[i] == p by {
                                if p == q as int {
                                    assert(order@[order0.len() as int] == q);
                                } else {
                                    assert(placed0[p]);
                                    let i = choose|i: int| 0 <= i < order0.len() && order0[i] == p;
                                    assert(order@[i] == p);
                                }
                            }
                            assert forall|i: int, j: int| 0 <= i < j < order@.len() implies order@[i] != order@[j] by {
                                if j == order0.len() {
                                    assert(placed0[order0[i] as int]);
                                }
                            }
                            assert forall|i: int, p: int|
                                0 <= i < order@.len() && #[trigger] depends_on(*self, order@[i] as int, p) implies exists|j: int|
                                    0 <= j < i && #[trigger] order@[j] == p by {
                                if i == order0.len() {
                                    let k = choose|k: int| 0 <= k < deps@.len() && #[trigger] deps@[k] == p;
                                    assert(placed0[deps@[k] as int]);
                                    let j = choose|j: int| 0 <= j < order0.len() && order0[j] == p;
                                    assert(order@[j] == p);
                                } else {
                                    assert(order@[i] == order0[i]);
                                    let j = choose|j: int| 0 <= j < i && #[trigger] order0[j] == p;
                                    assert(order@[j] == p);
                                }
                            }
                        }
                    } else {
                        proof {
                            let j = choose|j: int| 0 <= j < deps@.len() && !placed@[#[trigger] deps@[j] as int];
                            assert(depends_on(*self, q as int, deps@[j] as int));
                            assert(blocked(*self, placed@, q as int));
                        }
                    }
                }
                q = q + 1;
            }
            if !progress {
                break;
            }
        }
        let mut p: usize = 0;
        while p < n
            invariant
                p <= n,
                marked@.len() == n,
                placed@.len() == n,
                forall|x: int| 0 <= x < p ==> #[trigger] marked@[x] ==> placed@[x],
                n == self.passes@.len(),
                reads_resolvable(*self),
                root < n,
                forall|x: int| 0 <= x < n ==> (marked@[x] <==> needed(*self, root as int, x)),
                forall|x: int| needed(*self, root as int, x) ==> 0 <= x < n,
                forall|x: int| 0 <= x < n && marked@[x] && !placed@[x] ==> #[trigger] blocked(*self, placed@, x),
            decreases n - p,
        {
            if marked[p] && !placed[p] {
                proof {
                    lemma_unplaced_is_stuck(*self, root as int, marked@, placed@, p as int);
                }
                return None;
            }
            p = p + 1;
        }
        proof {
            assert forall|s: Set<int>| #[trigger] stuck(*self, s) && (exists|x: int| s.contains(x)) implies !(forall|x: int|
                s.contains(x) ==> needed(*self, root as int, x)) by {
                let x = choose|x: int| s.contains(x);
                if needed(*self, root as int, x) {
                    assert(marked@[x]);
                    assert(placed@[x]);
                }
            }
            assert forall|i: int| 0 <= i < order@.len() implies needed(*self, root as int, #[trigger] order@[i] as int) by {
                assert(placed@[order@[i] as int]);
            }
            assert forall|x: int| needed(*self, root as int, x) implies exists|i: int| 0 <= i < order@.len() && #[trigger] order@[i] == x by {
                assert(marked@[x]);
                assert(placed@[x]);
            }
        }
        Some(order)
    }

    /// The passes that pass `q` depends on, possibly more than once.
    fn dependencies(&self, q: usize) -> (deps: Vec<usize>)
        requires
            reads_resolvable(*self),
            q < self.passes@.len(),
        ensures
            forall|k: int| 0 <= k < deps@.len() ==> #[trigger] deps@[k] < self.passes@.len(),
            forall|p: int|
                depends_on(*self, q as int, p) <==> exists|k: int|
                    0 <= k < deps@.len() && #[trigger] deps@[k] == p,
    {
        reveal(depends_on);
        let pass = &self.passes[q];
        let mut deps: Vec<usize> = Vec::new();
        let mut i: usize = 0;
        while i < pass.read_attachments.len()
            invariant
                reads_resolvable(*self),
                q < self.passes@.len(),
                *pass == self.passes@[q as int],
                i <= pass.read_attachments@.len(),
                deps@.len() == i,
                forall|k: int| 0 <= k < i ==> #[trigger] deps@[k] as int == owner_of(*self, pass.read_attachments@[k].id),
                forall|k: int| 0 <= k < deps@.len() ==> #[trigger] deps@[k] < self.passes@.len(),
            decreases pass.read_attachments@.len() - i,
        {
            let id = pass.read_attachments[i].id;
            assert(pass.read_attachments@[i as int].id < self.owned_resources@.len());
            let owner = self.resource_to_owning_pass[id].id;
            deps.push(owner);
            i = i + 1;
        }
        let na = deps.len();
        let mut i: usize = 0;
        while i < pass.read_buffers.len()
            invariant
                reads_resolvable(*self),
                q < self.passes@.len(),
                *pass == self.passes@[q as int],
                i <= pass.read_buffers@.len(),
                na == pass.read_attachments@.len(),
                deps@.len() == na + i,
                forall|k: int| 0 <= k < na ==> #[trigger] deps@[k] as int == owner_of(*self, pass.read_attachments@[k].id),
                forall|k: int| 0 <= k < i ==> #[trigger] deps@[na + k] as int == owner_of(*self, pass.read_buffers@[k].id),
                forall|k: int| 0 <= k < deps@.len() ==> #[trigger] deps@[k] < self.passes@.len(),
            decreases pass.read_buffers@.len() - i,
        {
            let id = pass.read_buffers[i].id;
            assert(pass.read_buffers@[i as int].id < self.owned_resources@.len());
            let owner = self.resource_to_owning_pass[id].id;
            deps.push(owner);
            proof {
                assert(deps@[na + i] as int == owner_of(*self, pass.read_buffers@[i as int].id));
            }
            i = i + 1;
        }
        proof {
            assert forall|p: int|
                depends_on(*self, q as int, p) implies exists|k: int|
                    0 <= k < deps@.len() && #[trigger] deps@[k] == p by {
                if exists|i: int|
                    0 <= i < pass.read_attachments@.len() && owner_of(
                        *self,
                        #[trigger] pass.read_attachments@[i].id,
                    ) == p {
                    let i = choose|i: int|
                        0 <= i < pass.read_attachments@.len() && owner_of(
                            *self,
                            #[trigger] pass.read_attachments@[i].id,
                        ) == p;
                    assert(deps@[i] == p);
                } else {
                    let i = choose|i: int|
                        0 <= i < pass.read_buffers@.len() && owner_of(
                            *self,
                            #[trigger] pass.read_buffers@[i].id,
                        ) == p;
                    assert(deps@[na + i] == p);
                }
            }
            assert forall|p: int|
                (exists|k: int| 0 <= k < deps@.len() && #[trigger] deps@[k] == p) implies depends_on(
                *self,
                q as int,
                p,
            ) by {
                let k = choose|k: int| 0 <= k < deps@.len() && #[trigger] deps@[k] == p;
                if k < na {
                    assert(owner_of(*self, pass.read_attachments@[k].id) == p);
                } else {
                    let b = k - na;
                    assert(deps@[na + b] == deps@[k]);
                    assert(owner_of(*self, pass.read_buffers@[b].id) == p);
                }
            }
        }
        deps
    }
}

} // verus!
