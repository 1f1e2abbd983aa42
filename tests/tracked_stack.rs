use memory_visualizer::heap_counter::{record_alloc, record_dealloc};
use memory_visualizer::tracked_stack::{MemoryState, BLOCK_ALIGN};

#[test]
fn allocate_then_deallocate_restores_counter() {
    let mut state: MemoryState<u32> = MemoryState::new();
    let start: usize = 5000;
    let mut live = start;
    let mut deltas: Vec<i64> = Vec::new();

    assert!(state.allocate(1024, Some(1)));
    let after = record_alloc(live, 1024);
    deltas.push(after as i64 - live as i64);
    live = after;

    let block = state.deallocate().expect("a block was tracked");
    let after = record_dealloc(live, block.size);
    deltas.push(after as i64 - live as i64);
    live = after;

    assert_eq!(deltas, vec![1024, -1024]);
    assert_eq!(live, start);
    assert!(state.is_empty());
    assert_eq!(state.len(), 0);
}

#[test]
fn three_allocations_then_one_deallocation_is_lifo() {
    let mut state: MemoryState<u32> = MemoryState::new();
    let mut live: usize = 0;
    for (i, size) in [100usize, 200, 300].iter().enumerate() {
        assert!(state.allocate(*size, Some(i as u32)));
        live = record_alloc(live, *size);
    }
    assert_eq!(live, 600);
    let block = state.deallocate().expect("a block was tracked");
    assert_eq!(block.size, 300);
    assert_eq!(block.handle, 2);
    assert_eq!(block.align, BLOCK_ALIGN);
    live = record_dealloc(live, block.size);
    assert_eq!(live, 300);
    assert_eq!(state.len(), 2);

    let next = state.deallocate().expect("two blocks remain");
    assert_eq!(next.size, 200);
    let last = state.deallocate().expect("one block remains");
    assert_eq!(last.size, 100);
}

#[test]
fn deallocate_on_empty_stack_is_a_noop() {
    let mut state: MemoryState<u32> = MemoryState::new();
    let live: usize = 777;
    let popped = state.deallocate();
    assert!(popped.is_none());
    assert!(state.is_empty());
    // nothing was handed back, so nothing is released from the counter
    assert_eq!(live, 777);
}

#[test]
fn failed_allocation_is_not_tracked() {
    let mut state: MemoryState<u32> = MemoryState::new();
    assert!(state.allocate(64, Some(9)));
    assert!(!state.allocate(1 << 40, None));
    assert_eq!(state.len(), 1);
    let block = state.deallocate().expect("one block");
    assert_eq!(block.size, 64);
    assert_eq!(block.handle, 9);
}

#[test]
fn length_after_k_allocations_and_j_deallocations() {
    let k: usize = 7;
    for j in 0..=k {
        let mut state: MemoryState<usize> = MemoryState::new();
        for i in 0..k {
            assert!(state.allocate(i * 10, Some(i)));
        }
        for _ in 0..j {
            assert!(state.deallocate().is_some());
        }
        assert_eq!(state.len(), k - j);
    }
}

#[test]
fn matched_sequence_restores_counter() {
    let sizes = [1usize, 4096, 0, 123_456, usize::MAX, 17];
    let start: usize = 42;
    let mut state: MemoryState<usize> = MemoryState::new();
    let mut live = start;
    for (i, s) in sizes.iter().enumerate() {
        state.allocate(*s, Some(i));
        live = record_alloc(live, *s);
    }
    while let Some(block) = state.deallocate() {
        live = record_dealloc(live, block.size);
    }
    assert_eq!(live, start);
}
