use goldfish::frame::{VulkanDescriptorHeap, FrameSlots, VulkanDescriptorHandle, MAX_FRAMES_IN_FLIGHT};

#[test]
fn destruction_waits_for_the_slot_to_come_round() {
    let mut slots: FrameSlots<u32> = FrameSlots::new();
    assert_eq!(slots.acquire(), Vec::<u32>::new());
    slots.queue_destruction(vec![1, 2]);
    slots.advance();
    assert_eq!(slots.frame, 1);
    assert_eq!(slots.acquire(), Vec::<u32>::new());
    slots.queue_destruction(vec![3]);
    slots.advance();
    assert_eq!(slots.frame, 0);
    assert_eq!(slots.acquire(), vec![1, 2]);
    slots.advance();
    assert_eq!(slots.acquire(), vec![3]);
    assert_eq!(MAX_FRAMES_IN_FLIGHT, 2);
}

#[test]
fn descriptor_slots_hand_out_and_take_back() {
    let mut heap = VulkanDescriptorHeap::new(2);
    let a = heap.alloc_set().unwrap();
    let b = heap.alloc_set().unwrap();
    assert_eq!(a, VulkanDescriptorHandle { id: 1 });
    assert_eq!(b, VulkanDescriptorHandle { id: 0 });
    assert_eq!(heap.alloc_set(), None);
    heap.free(a);
    assert_eq!(heap.allocated_descriptors, vec![0]);
    assert_eq!(heap.alloc_set(), Some(a));
}
