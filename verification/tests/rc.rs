use pointers::rc::{Heap, Rc};

/// A payload that counts how often it is destroyed.
struct Counted {
    drops: std::rc::Rc<std::cell::Cell<usize>>,
    tag: u32,
}

impl Drop for Counted {
    fn drop(&mut self) {
        self.drops.set(self.drops.get() + 1);
    }
}

fn counted(tag: u32) -> (std::rc::Rc<std::cell::Cell<usize>>, Counted) {
    let drops = std::rc::Rc::new(std::cell::Cell::new(0));
    let payload = Counted { drops: drops.clone(), tag };
    (drops, payload)
}

#[test]
fn bad() {
    let mut heap = Heap::new();
    let five = Rc::new(&mut heap, 5);
    assert_eq!(heap.count(&five), 1);
    assert_eq!(*five.deref(&heap), 5);
}

#[test]
fn rc_two_handles_one_payload() {
    let mut heap = Heap::new();
    let rc1 = Rc::new(&mut heap, 42);
    let rc2 = rc1.clone(&mut heap);
    assert_eq!(*rc1.deref(&heap), 42);
    assert_eq!(*rc2.deref(&heap), 42);
    assert_eq!(heap.count(&rc2), 2);
    rc1.drop(&mut heap);
    assert_eq!(heap.count(&rc2), 1);
    assert_eq!(*rc2.deref(&heap), 42);
    let probe = rc2.clone(&mut heap);
    rc2.drop(&mut heap);
    assert_eq!(heap.count(&probe), 1);
    let last = probe.clone(&mut heap);
    probe.drop(&mut heap);
    assert_eq!(heap.count(&last), 1);
}

#[test]
fn rc_payload_goes_with_the_last_handle() {
    let (drops, payload) = counted(1);
    let mut heap = Heap::new();
    let rc1 = Rc::new(&mut heap, payload);
    let rc2 = rc1.clone(&mut heap);
    rc1.drop(&mut heap);
    assert_eq!(drops.get(), 0);
    assert_eq!(rc2.deref(&heap).tag, 1);
    rc2.drop(&mut heap);
    assert_eq!(drops.get(), 1);
}

#[test]
fn rc_payload_is_destroyed_once_after_many_clones() {
    let (drops, payload) = counted(3);
    let mut heap = Heap::new();
    let first = Rc::new(&mut heap, payload);
    let mut handles = vec![];
    for _ in 0..9 {
        handles.push(first.clone(&mut heap));
    }
    handles.push(first);
    assert_eq!(heap.count(&handles[0]), 10);
    let mut alive = 10;
    while let Some(handle) = handles.pop() {
        assert_eq!(drops.get(), 0);
        assert_eq!(heap.count(&handle), alive);
        assert_eq!(handle.deref(&heap).tag, 3);
        handle.drop(&mut heap);
        alive -= 1;
    }
    assert_eq!(drops.get(), 1);
}

#[test]
fn rc_drop_order_does_not_matter() {
    let (drops, payload) = counted(0);
    let mut heap = Heap::new();
    let a = Rc::new(&mut heap, payload);
    let b = a.clone(&mut heap);
    let c = b.clone(&mut heap);
    b.drop(&mut heap);
    assert_eq!(drops.get(), 0);
    let d = c.clone(&mut heap);
    a.drop(&mut heap);
    d.drop(&mut heap);
    assert_eq!(drops.get(), 0);
    assert_eq!(heap.count(&c), 1);
    c.drop(&mut heap);
    assert_eq!(drops.get(), 1);
}

#[test]
fn rc_count_is_zero_once_the_allocation_is_gone() {
    let mut heap = Heap::new();
    let rc = Rc::new(&mut heap, 8u8);
    let other = Rc::new(&mut heap, 9u8);
    let probe = rc.clone(&mut heap);
    assert_eq!(heap.count(&probe), 2);
    rc.drop(&mut heap);
    assert_eq!(heap.count(&probe), 1);
    let witness = Rc::new(&mut heap, 10u8);
    assert_eq!(*probe.deref(&heap), 8);
    assert_eq!(*other.deref(&heap), 9);
    assert_eq!(*witness.deref(&heap), 10);
    assert_eq!(heap.count(&other), 1);
    other.drop(&mut heap);
    assert_eq!(heap.count(&witness), 1);
    assert_eq!(*witness.deref(&heap), 10);
}

#[test]
fn rc_allocations_do_not_touch_each_other() {
    let (drops_a, a) = counted(1);
    let (drops_b, b) = counted(2);
    let mut heap = Heap::new();
    let ha = Rc::new(&mut heap, a);
    let hb = Rc::new(&mut heap, b);
    let hb2 = hb.clone(&mut heap);
    assert_eq!(heap.count(&ha), 1);
    assert_eq!(heap.count(&hb), 2);
    ha.drop(&mut heap);
    assert_eq!(drops_a.get(), 1);
    assert_eq!(drops_b.get(), 0);
    assert_eq!(hb.deref(&heap).tag, 2);
    hb.drop(&mut heap);
    hb2.drop(&mut heap);
    assert_eq!(drops_b.get(), 1);
    assert_eq!(drops_a.get(), 1);
}

#[test]
fn rc_a_slot_is_not_given_out_twice() {
    // Handles of a second heap stand for the slots 0 and 1.
    let mut other = Heap::new();
    let slot0 = Rc::new(&mut other, 0u32);
    let slot1 = Rc::new(&mut other, 0u32);

    let mut heap = Heap::new();
    let first = Rc::new(&mut heap, 5u32);
    assert_eq!(heap.count(&slot0), 1);
    first.drop(&mut heap);
    assert_eq!(heap.count(&slot0), 0);
    let second = Rc::new(&mut heap, 6u32);
    assert_eq!(heap.count(&slot0), 0);
    assert_eq!(heap.count(&slot1), 1);
    assert_eq!(*second.deref(&heap), 6);
}

#[test]
fn rc_empty_heap_knows_no_allocation() {
    let mut first = Heap::new();
    let second: Heap<u32> = Heap::new();
    let rc = Rc::new(&mut first, 1u32);
    assert_eq!(second.count(&rc), 0);
    assert_eq!(first.count(&rc), 1);
}
