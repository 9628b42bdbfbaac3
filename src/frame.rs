use vstd::prelude::*;

verus! {

/// How many frames of GPU work may be in flight at once.
pub const MAX_FRAMES_IN_FLIGHT: usize = 2;

/// Per-frame-slot queues of objects waiting for destruction. An object
/// queued while a slot is current is handed back when that slot is acquired
/// again, once the GPU has finished the slot's previous frame.
#[derive(Debug)]
pub struct FrameSlots<T> {
    pub frame: usize,
    pub destructors: Vec<Vec<T>>,
}

impl<T> FrameSlots<T> {
    pub open spec fn wf(&self) -> bool {
        &&& self.frame < MAX_FRAMES_IN_FLIGHT
        &&& self.destructors@.len() == MAX_FRAMES_IN_FLIGHT
    }

    /// Slot 0 current, nothing queued.
    pub fn new() -> (s: Self)
        ensures
            s.wf(),
            s.frame == 0,
            forall|i: int| 0 <= i < MAX_FRAMES_IN_FLIGHT ==> s.destructors@[i]@.len() == 0,
    {
        let mut destructors: Vec<Vec<T>> = Vec::new();
        destructors.push(Vec::new());
        destructors.push(Vec::new());
        FrameSlots { frame: 0, destructors }
    }

    /// Queues `items` for destruction once the current slot comes round again.
    pub fn queue_destruction(&mut self, items: Vec<T>)
        requires
            old(self).wf(),
        ensures
            final(self).wf(),
            final(self).frame == old(self).frame,
            final(self).destructors@[old(self).frame as int]@ == old(self).destructors@[old(self).frame as int]@
                + items@,
            forall|i: int| 0 <= i < MAX_FRAMES_IN_FLIGHT && i != old(self).frame ==> final(self).destructors@[i]
                == old(self).destructors@[i],
    {
        let mut queue: Vec<T> = Vec::new();
        self.destructors.set_and_swap(self.frame, &mut queue);
        let mut items = items;
        queue.append(&mut items);
        self.destructors.set_and_swap(self.frame, &mut queue);
    }

    /// Takes the current slot's queue: the objects to destroy now that the
    /// slot's previous frame has finished on the GPU.
    pub fn acquire(&mut self) -> (r: Vec<T>)
        requires
            old(self).wf(),
        ensures
            final(self).wf(),
            final(self).frame == old(self).frame,
            r@ == old(self).destructors@[old(self).frame as int]@,
            final(self).destructors@[old(self).frame as int]@.len() == 0,
            forall|i: int| 0 <= i < MAX_FRAMES_IN_FLIGHT && i != old(self).frame ==> final(self).destructors@[i]
                == old(self).destructors@[i],
    {
        let mut queue: Vec<T> = Vec::new();
        self.destructors.set_and_swap(self.frame, &mut queue);
        queue
    }

    /// Moves on to the next slot after submitting a frame.
    pub fn advance(&mut self)
        requires
            old(self).wf(),
        ensures
            final(self).wf(),
            final(self).frame == (old(self).frame + 1) % (MAX_FRAMES_IN_FLIGHT as int),
            final(self).destructors == old(self).destructors,
    {
        self.frame = (self.frame + 1) % MAX_FRAMES_IN_FLIGHT;
    }
}

/// A descriptor set of a heap, by its index there.
#[derive(Debug, Copy, Clone, PartialEq, Eq, Hash, Structural)]
pub struct VulkanDescriptorHandle {
    pub id: u32,
}

/// Which descriptor sets of a fixed-size heap are free and which are in use.
#[derive(Debug)]
pub struct VulkanDescriptorHeap {
    pub free_descriptors: Vec<u32>,
    pub allocated_descriptors: Vec<u32>,
}

impl VulkanDescriptorHeap {
    /// A heap of `max_sets` sets, all free; the lowest index is handed out last.
    pub fn new(max_sets: u32) -> (s: VulkanDescriptorHeap)
        ensures
            s.free_descriptors@.len() == max_sets,
            forall|i: int| 0 <= i < max_sets ==> s.free_descriptors@[i] == i,
            s.allocated_descriptors@.len() == 0,
    {
        let mut free_descriptors: Vec<u32> = Vec::new();
        let mut i: u32 = 0;
        while i < max_sets
            invariant
                i <= max_sets,
                free_descriptors@.len() == i,
                forall|j: int| 0 <= j < i ==> free_descriptors@[j] == j,
            decreases max_sets - i,
        {
            free_descriptors.push(i);
            i = i + 1;
        }
        VulkanDescriptorHeap { free_descriptors, allocated_descriptors: Vec::new() }
    }

    /// Takes the most recently freed set, or none when every set is in use.
    pub fn alloc_set(&mut self) -> (r: Option<VulkanDescriptorHandle>)
        ensures
            old(self).free_descriptors@.len() == 0 ==> r is None && *final(self) == *old(self),
            old(self).free_descriptors@.len() > 0 ==> {
                let id = old(self).free_descriptors@.last();
                &&& r == Some(VulkanDescriptorHandle { id })
                &&& final(self).free_descriptors@ == old(self).free_descriptors@.drop_last()
                &&& final(self).allocated_descriptors@ == old(self).allocated_descriptors@.push(id)
            },
    {
        if self.free_descriptors.len() == 0 {
            return None;
        }
        match self.free_descriptors.pop() {
            Some(id) => {
                self.allocated_descriptors.push(id);
                Some(VulkanDescriptorHandle { id })
            },
            None => None,
        }
    }

    /// Returns a set in use to the free list.
    pub fn free(&mut self, handle: VulkanDescriptorHandle)
        requires
            old(self).allocated_descriptors@.contains(handle.id),
        ensures
            final(self).free_descriptors@ == old(self).free_descriptors@.push(handle.id),
            exists|i: int|
                0 <= i < old(self).allocated_descriptors@.len() && old(self).allocated_descriptors@[i] == handle.id
                    && final(self).allocated_descriptors@ == old(self).allocated_descriptors@.update(
                    i,
                    old(self).allocated_descriptors@.last(),
                ).drop_last(),
    {
        let mut i: usize = 0;
        while i < self.allocated_descriptors.len()
            invariant
                i <= self.allocated_descriptors@.len(),
                *self == *old(self),
                old(self).allocated_descriptors@.contains(handle.id),
                forall|j: int| 0 <= j < i ==> self.allocated_descriptors@[j] != handle.id,
            decreases self.allocated_descriptors@.len() - i,
        {
            if self.allocated_descriptors[i] == handle.id {
                let ghost before = self.allocated_descriptors@;
                self.allocated_descriptors.swap_remove(i);
                self.free_descriptors.push(handle.id);
                proof {
                    assert(self.allocated_descriptors@ =~= before.update(i as int, before.last()).drop_last());
                }
                return;
            }
            i = i + 1;
        }
    }
}

} // verus!
