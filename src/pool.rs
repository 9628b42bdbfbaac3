use vstd::prelude::*;
use crate::builder::first_index;

verus! {

/// A structural cache key: two keys name the same physical object exactly
/// when their views are equal.
pub trait CacheKey: View + Sized {
    fn same_key(&self, other: &Self) -> (r: bool)
        ensures
            r == (self@ == other@);

    /// A key with the same view.
    fn duplicate(&self) -> (r: Self)
        ensures
            r@ == self@;
}

/// Views of a sequence of keys.
pub open spec fn key_views<K: View>(keys: Seq<K>) -> Seq<K::V> {
    keys.map_values(|k: K| k@)
}

/// The index a key is interned at: its first position, or the end when new.
pub open spec fn interned_index<V>(keys: Seq<V>, k: V) -> int {
    if keys.contains(k) {
        first_index(keys, k)
    } else {
        keys.len() as int
    }
}

/// Interned keys; the position of a key is the index of the physical object
/// made for it. Objects are only ever appended.
#[derive(Debug)]
pub struct KeyTable<K> {
    pub keys: Vec<K>,
}

impl<K: CacheKey> KeyTable<K> {
    pub open spec fn views(&self) -> Seq<K::V> {
        key_views(self.keys@)
    }

    pub fn new() -> (t: Self)
        ensures
            t.keys@.len() == 0,
            t.distinct(),
    {
        KeyTable { keys: Vec::new() }
    }

    /// No key is listed twice.
    pub open spec fn distinct(&self) -> bool {
        forall|i: int, j: int| 0 <= i < j < self.keys@.len() ==> self.views()[i] != self.views()[j]
    }

    /// A copy of the key at index `i`.
    pub fn key_at(&self, i: usize) -> (k: K)
        requires
            i < self.keys@.len(),
        ensures
            k@ == self.views()[i as int],
    {
        self.keys[i].duplicate()
    }

    /// `self` holds every key of `old` at the same index.
    pub open spec fn grows_from(&self, old: KeyTable<K>) -> bool {
        &&& self.keys@.len() >= old.keys@.len()
        &&& forall|j: int| 0 <= j < old.keys@.len() ==> #[trigger] self.views()[j] == old.views()[j]
    }

    /// The index of `key`, appending it when it is new; `created` says
    /// whether it was.
    pub fn intern(&mut self, key: K) -> (r: (usize, bool))
        ensures
            r.0 == interned_index(old(self).views(), key@),
            r.1 == !old(self).views().contains(key@),
            r.1 ==> final(self).keys@ == old(self).keys@.push(key),
            !r.1 ==> final(self).keys@ == old(self).keys@,
            r.0 < final(self).keys@.len(),
            final(self).views()[r.0 as int] == key@,
            final(self).grows_from(*old(self)),
            old(self).distinct() ==> final(self).distinct(),
    {
        let ghost vs = self.views();
        let mut i: usize = 0;
        while i < self.keys.len()
            invariant
                i <= self.keys@.len(),
                self.keys@ == old(self).keys@,
                vs == self.views(),
                forall|j: int| 0 <= j < i ==> vs[j] != key@,
            decreases self.keys@.len() - i,
        {
            if self.keys[i].same_key(&key) {
                proof {
                    assert(vs[i as int] == key@);
                    assert(vs.contains(key@));
                    let k = first_index(vs, key@);
                    assert(0 <= k < vs.len() && vs[k] == key@ && forall|j: int| 0 <= j < k ==> vs[j] != key@) by {
                        assert(0 <= i < vs.len() && vs[i as int] == key@ && forall|j: int|
                            0 <= j < i ==> vs[j] != key@);
                    }
                    assert(k == i as int);
                }
                return (i, false);
            }
            i = i + 1;
        }
        proof {
            assert(!vs.contains(key@));
        }
        let n = self.keys.len();
        self.keys.push(key);
        proof {
            assert(self.views() =~= vs.push(key@));
            if old(self).distinct() {
                assert forall|a: int, b: int| 0 <= a < b < self.keys@.len() implies self.views()[a] != self.views()[b] by {
                    if b == n as int {
                        assert(vs[a] == self.views()[a]);
                    }
                }
            }
        }
        (n, true)
    }
}

/// Pools of physical objects grouped by key: `slots[i]` lists the objects
/// made for `keys[i]`. `count` objects exist in all; pools only grow.
#[derive(Debug)]
pub struct PhysicalPool<K> {
    pub keys: Vec<K>,
    pub slots: Vec<Vec<usize>>,
    pub count: usize,
}

impl<K: CacheKey> PhysicalPool<K> {
    pub open spec fn views(&self) -> Seq<K::V> {
        key_views(self.keys@)
    }

    /// Keys are distinct, each has its list of objects, and every object is
    /// numbered below `count` and listed once.
    pub open spec fn wf(&self) -> bool {
        &&& self.slots@.len() == self.keys@.len()
        &&& forall|i: int, j: int| 0 <= i < j < self.keys@.len() ==> self.views()[i] != self.views()[j]
        &&& forall|a: int, x: int|
            0 <= a < self.slots@.len() && 0 <= x < self.slots@[a]@.len() ==> #[trigger] self.slots@[a]@[x] < self.count
        &&& forall|a: int, x: int, b: int, y: int|
            0 <= a < self.slots@.len() && 0 <= b < self.slots@.len() && 0 <= x < self.slots@[a]@.len() && 0 <= y
                < self.slots@[b]@.len() && #[trigger] self.slots@[a]@[x] == #[trigger] self.slots@[b]@[y] ==> a == b
                && x == y
    }

    /// How many objects exist for key `k`.
    pub open spec fn pool_len(&self, k: K::V) -> nat {
        if self.views().contains(k) {
            self.slots@[first_index(self.views(), k)]@.len()
        } else {
            0
        }
    }

    /// `self` holds at least the objects of `old`, each where it was.
    pub open spec fn keeps(&self, old: PhysicalPool<K>) -> bool {
        &&& self.count >= old.count
        &&& forall|k: K::V| #[trigger] self.pool_len(k) >= old.pool_len(k)
        &&& forall|k: K::V, m: int| 0 <= m < old.pool_len(k) ==> #[trigger] self.slot(k, m) == old.slot(k, m)
    }

    pub proof fn lemma_keeps_trans(&self, mid: PhysicalPool<K>, old: PhysicalPool<K>)
        requires
            self.keeps(mid),
            mid.keeps(old),
        ensures
            self.keeps(old),
    {
        assert forall|k: K::V| #[trigger] self.pool_len(k) >= old.pool_len(k) by {
            assert(mid.pool_len(k) >= old.pool_len(k));
        }
        assert forall|k: K::V, m: int| 0 <= m < old.pool_len(k) implies #[trigger] self.slot(k, m) == old.slot(k, m) by {
            assert(mid.pool_len(k) >= old.pool_len(k));
            assert(mid.slot(k, m) == old.slot(k, m));
        }
    }

    /// Object `o` is one of those made for key `k`.
    pub open spec fn lists(&self, k: K::V, o: usize) -> bool {
        exists|m: int| 0 <= m < self.pool_len(k) && self.slot(k, m) == o
    }

    /// The `j`th object made for key `k`.
    pub open spec fn slot(&self, k: K::V, j: int) -> usize {
        self.slots@[first_index(self.views(), k)]@[j]
    }

    pub fn new() -> (p: Self)
        ensures
            p.wf(),
            p.count == 0,
            forall|k: K::V| p.pool_len(k) == 0,
    {
        PhysicalPool { keys: Vec::new(), slots: Vec::new(), count: 0 }
    }

    /// Objects made for different keys, or for one key at different
    /// positions, are different objects.
    pub proof fn lemma_slots_distinct(&self, k1: K::V, j1: int, k2: K::V, j2: int)
        requires
            self.wf(),
            0 <= j1 < self.pool_len(k1),
            0 <= j2 < self.pool_len(k2),
            k1 != k2 || j1 != j2,
        ensures
            self.slot(k1, j1) != self.slot(k2, j2),
    {
        let vs = self.views();
        let a = first_index(vs, k1);
        let b = first_index(vs, k2);
        lemma_first_index(vs, k1);
        lemma_first_index(vs, k2);
        if self.slot(k1, j1) == self.slot(k2, j2) {
            assert(self.slots@[a]@[j1] == self.slots@[b]@[j2]);
        }
    }

    /// The `j`th object for `key`, making one more object for it when `j`
    /// is the number it has; `created` says whether one was made, and the
    /// object made is numbered `count`. Objects already made keep their
    /// positions.
    pub fn get_or_grow(&mut self, key: K, j: usize) -> (r: (usize, bool))
        requires
            old(self).wf(),
            j <= old(self).pool_len(key@),
            old(self).count < usize::MAX,
        ensures
            final(self).wf(),
            r.1 == (j == old(self).pool_len(key@)),
            r.1 ==> r.0 == old(self).count && final(self).count == old(self).count + 1
                && final(self).pool_len(key@) == old(self).pool_len(key@) + 1,
            !r.1 ==> r.0 == old(self).slot(key@, j as int) && final(self).count == old(self).count
                && final(self).pool_len(key@) == old(self).pool_len(key@),
            final(self).slot(key@, j as int) == r.0,
            forall|k: K::V| k != key@ ==> final(self).pool_len(k) == old(self).pool_len(k),
            forall|k: K::V, m: int|
                0 <= m < old(self).pool_len(k) ==> #[trigger] final(self).slot(k, m) == old(self).slot(k, m),
            old(self).count <= final(self).count,
            final(self).keeps(*old(self)),
    {
        let ghost vs = self.views();
        let mut i: usize = 0;
        while i < self.keys.len()
            invariant
                i <= self.keys@.len(),
                self == old(self),
                old(self).wf(),
                j <= old(self).pool_len(key@),
                old(self).count < usize::MAX,
                vs == self.views(),
                forall|m: int| 0 <= m < i ==> vs[m] != key@,
            decreases self.keys@.len() - i,
        {
            if self.keys[i].same_key(&key) {
                proof {
                    assert(vs[i as int] == self.keys@[i as int]@);
                    lemma_first_index_at(vs, i as int);
                }
                if j < self.slots[i].len() {
                    return (self.slots[i][j], false);
                }
                let phys = self.count;
                let ghost old_slots = self.slots@;
                let mut list: Vec<usize> = Vec::new();
                self.slots.set_and_swap(i, &mut list);
                list.push(phys);
                self.slots.set(i, list);
                self.count = phys + 1;
                proof {
                    assert(self.views() == vs);
                    assert(forall|a: int| 0 <= a < old_slots.len() && a != i ==> self.slots@[a] == old_slots[a]);
                    assert(forall|x: int| 0 <= x < old_slots[i as int]@.len() ==> self.slots@[i as int]@[x] == old_slots[i as int]@[x]);
                    assert forall|k: K::V| k != key@ implies self.pool_len(k) == old(self).pool_len(k) by {
                        if vs.contains(k) {
                            lemma_first_index(vs, k);
                        }
                    }
                    assert forall|k: K::V, m: int| 0 <= m < old(self).pool_len(k) implies #[trigger] self.slot(k, m) == old(self).slot(k, m) by {
                        lemma_first_index(vs, k);
                    }
                    assert forall|a: int, x: int|
                        0 <= a < self.slots@.len() && 0 <= x < self.slots@[a]@.len() implies #[trigger] self.slots@[a]@[x] < self.count by {
                        if a != i || x < old_slots[i as int]@.len() {
                            assert(old_slots[a]@[x] < old(self).count);
                        }
                    }
                    assert forall|a: int, x: int, b: int, y: int|
                        0 <= a < self.slots@.len() && 0 <= b < self.slots@.len() && 0 <= x < self.slots@[a]@.len() && 0 <= y
                            < self.slots@[b]@.len() && #[trigger] self.slots@[a]@[x] == #[trigger] self.slots@[b]@[y] implies a == b
                            && x == y by {
                        let new_a = a == i && x == old_slots[i as int]@.len();
                        let new_b = b == i && y == old_slots[i as int]@.len();
                        if !new_a {
                            assert(old_slots[a]@[x] < old(self).count);
                        }
                        if !new_b {
                            assert(old_slots[b]@[y] < old(self).count);
                        }
                        if !new_a && !new_b {
                            assert(old_slots[a]@[x] == old_slots[b]@[y]);
                        }
                    }
                }
                return (phys, true);
            }
            i = i + 1;
        }
        proof {
            assert(!vs.contains(key@));
        }
        let phys = self.count;
        let mut list: Vec<usize> = Vec::new();
        list.push(phys);
        let n = self.keys.len();
        let ghost old_slots = self.slots@;
        self.keys.push(key);
        self.slots.push(list);
        self.count = phys + 1;
        proof {
            let nv = self.views();
            assert(nv =~= vs.push(key@));
            assert(forall|a: int| 0 <= a < n ==> self.slots@[a] == old_slots[a]);
            assert forall|a: int, b: int| 0 <= a < b < self.keys@.len() implies nv[a] != nv[b] by {
                if b == n as int {
                    assert(vs[a] == nv[a]);
                }
            }
            lemma_first_index_at(nv, n as int);
            assert forall|k2: K::V| k2 != key@ implies self.pool_len(k2) == old(self).pool_len(k2) by {
                if vs.contains(k2) {
                    lemma_first_index(vs, k2);
                    let a = first_index(vs, k2);
                    assert(nv[a] == k2);
                    lemma_first_index_at(nv, a);
                } else {
                    assert(!nv.contains(k2)) by {
                        if nv.contains(k2) {
                            let w = choose|w: int| 0 <= w < nv.len() && nv[w] == k2;
                            assert(vs[w] == k2);
                        }
                    }
                }
            }
            assert forall|k2: K::V, m: int| 0 <= m < old(self).pool_len(k2) implies #[trigger] self.slot(k2, m) == old(self).slot(k2, m) by {
                lemma_first_index(vs, k2);
                let a = first_index(vs, k2);
                assert(nv[a] == k2);
                lemma_first_index_at(nv, a);
            }
            assert forall|a: int, x: int|
                0 <= a < self.slots@.len() && 0 <= x < self.slots@[a]@.len() implies #[trigger] self.slots@[a]@[x] < self.count by {
                if a < n {
                    assert(old_slots[a]@[x] < old(self).count);
                }
            }
            assert forall|a: int, x: int, b: int, y: int|
                0 <= a < self.slots@.len() && 0 <= b < self.slots@.len() && 0 <= x < self.slots@[a]@.len() && 0 <= y
                    < self.slots@[b]@.len() && #[trigger] self.slots@[a]@[x] == #[trigger] self.slots@[b]@[y] implies a == b
                    && x == y by {
                if a < n {
                    assert(old_slots[a]@[x] < old(self).count);
                }
                if b < n {
                    assert(old_slots[b]@[y] < old(self).count);
                }
                if a < n && b < n {
                    assert(old_slots[a]@[x] == old_slots[b]@[y]);
                }
            }
        }
        (phys, true)
    }
}

pub proof fn lemma_grows_trans<K: CacheKey>(a: KeyTable<K>, b: KeyTable<K>, c: KeyTable<K>)
    requires
        b.grows_from(a),
        c.grows_from(b),
    ensures
        c.grows_from(a),
{
    assert forall|j: int| 0 <= j < a.keys@.len() implies #[trigger] c.views()[j] == a.views()[j] by {
        assert(b.views()[j] == a.views()[j]);
    }
}

/// Where distinct keys are listed, position `w` is the first position of
/// its key.
pub proof fn lemma_first_index_at<V>(vs: Seq<V>, w: int)
    requires
        0 <= w < vs.len(),
        forall|i: int, j: int| 0 <= i < j < vs.len() ==> vs[i] != vs[j],
    ensures
        vs.contains(vs[w]),
        first_index(vs, vs[w]) == w,
{
    let x = vs[w];
    assert(0 <= w < vs.len() && vs[w] == x && forall|m: int| 0 <= m < w ==> vs[m] != x);
    let k = first_index(vs, x);
    assert(k == w);
}

/// The first position of a listed key holds it, and no earlier one does.
pub proof fn lemma_first_index<V>(vs: Seq<V>, x: V)
    requires
        vs.contains(x),
    ensures
        0 <= first_index(vs, x) < vs.len(),
        vs[first_index(vs, x)] == x,
        forall|m: int| 0 <= m < first_index(vs, x) ==> vs[m] != x,
    decreases vs.len(),
{
    let w = choose|w: int| 0 <= w < vs.len() && vs[w] == x;
    lemma_first_exists(vs, x, w);
}

proof fn lemma_first_exists<V>(vs: Seq<V>, x: V, w: int)
    requires
        0 <= w < vs.len(),
        vs[w] == x,
    ensures
        exists|k: int| 0 <= k < vs.len() && vs[k] == x && forall|m: int| 0 <= m < k ==> vs[m] != x,
    decreases w,
{
    if exists|m: int| 0 <= m < w && vs[m] == x {
        let m = choose|m: int| 0 <= m < w && vs[m] == x;
        lemma_first_exists(vs, x, m);
    } else {
        assert(forall|m: int| 0 <= m < w ==> vs[m] != x);
    }
}

/// Which physical object each virtual resource of one execution is bound to.
/// A virtual resource is bound at most once: a later binding is ignored.
#[derive(Debug)]
pub struct VirtualToPhysicalResourceMap<T: Copy> {
    pub map: Vec<Option<T>>,
}

impl<T: Copy> VirtualToPhysicalResourceMap<T> {
    /// The object `handle` is bound to, if any.
    pub open spec fn get(&self, handle: usize) -> Option<T> {
        if handle < self.map@.len() {
            self.map@[handle as int]
        } else {
            None
        }
    }

    pub fn new() -> (m: Self)
        ensures
            forall|h: usize| m.get(h) is None,
    {
        VirtualToPhysicalResourceMap { map: Vec::new() }
    }

    /// Binds `handle` to `physical` unless it is bound already.
    pub fn map_physical(&mut self, handle: usize, physical: T)
        requires
            handle < usize::MAX,
        ensures
            final(self).get(handle) == match old(self).get(handle) {
                Some(p) => Some(p),
                None => Some(physical),
            },
            forall|h: usize| h != handle ==> final(self).get(h) == old(self).get(h),
    {
        while self.map.len() <= handle
            invariant
                forall|h: usize| #[trigger] self.get(h) == old(self).get(h),
            decreases handle + 1 - self.map@.len(),
        {
            let ghost before = *self;
            self.map.push(None);
            proof {
                assert forall|h: usize| #[trigger] self.get(h) == before.get(h) by {
                    if h < before.map@.len() {
                        assert(self.map@[h as int] == before.map@[h as int]);
                    }
                }
            }
        }
        let ghost mid = *self;
        assert(forall|h: usize| mid.get(h) == old(self).get(h));
        assert(handle < mid.map@.len());
        if self.map[handle].is_none() {
            self.map.set(handle, Some(physical));
            proof {
                assert forall|h: usize| h != handle implies self.get(h) == mid.get(h) by {
                    if h < self.map@.len() {
                        assert(self.map@[h as int] == mid.map@[h as int]);
                    }
                }
                assert(self.get(handle) == Some(physical));
                assert(mid.get(handle) is None);
            }
        }
        assert forall|h: usize| h != handle implies self.get(h) == old(self).get(h) by {
            assert(mid.get(h) == old(self).get(h));
        }
    }

    /// The object `id` is bound to.
    pub fn get_physical(&self, id: usize) -> (p: T)
        requires
            self.get(id) is Some,
        ensures
            Some(p) == self.get(id),
    {
        self.map[id].unwrap()
    }
}

} // verus!
