use vstd::prelude::*;

verus! {

/// Alignment at which every tracked block is requested.
pub const BLOCK_ALIGN: usize = 8;

/// One allocation made on request and owned by a [`MemoryState`] until it is released.
///
/// `handle` is opaque to this library: whoever performs the allocation decides what it
/// is (an address, an index) and gets it back when the block is released.
pub struct TrackedBlock<H> {
    pub size: usize,
    pub align: usize,
    pub handle: H,
}

/// The stack of tracked blocks, oldest first.
///
/// Blocks enter only by [`MemoryState::allocate`] and leave only by
/// [`MemoryState::deallocate`], most recent first.
pub struct MemoryState<H> {
    allocations: Vec<TrackedBlock<H>>,
}

/// The stack after a successful allocation of `size` bytes under `handle`.
pub open spec fn pushed<H>(s: Seq<TrackedBlock<H>>, size: usize, handle: H) -> Seq<
    TrackedBlock<H>,
> {
    s.push(TrackedBlock { size, align: BLOCK_ALIGN, handle })
}

/// The stack after a deallocation: the top block is gone, and an empty stack stays empty.
pub open spec fn popped<H>(s: Seq<TrackedBlock<H>>) -> Seq<TrackedBlock<H>> {
    if s.len() == 0 {
        s
    } else {
        s.drop_last()
    }
}

/// The block that a deallocation hands back: the top one, if any.
pub open spec fn top_of<H>(s: Seq<TrackedBlock<H>>) -> Option<TrackedBlock<H>> {
    if s.len() == 0 {
        None
    } else {
        Some(s.last())
    }
}

impl<H> View for MemoryState<H> {
    type V = Seq<TrackedBlock<H>>;

    closed spec fn view(&self) -> Seq<TrackedBlock<H>> {
        self.allocations@
    }
}

impl<H> MemoryState<H> {
    /// An empty stack.
    pub fn new() -> (r: Self)
        ensures
            r@ == Seq::<TrackedBlock<H>>::empty(),
    {
        MemoryState { allocations: Vec::new() }
    }

    /// Number of blocks tracked.
    pub fn len(&self) -> (r: usize)
        ensures
            r == self@.len(),
    {
        self.allocations.len()
    }

    /// Whether no block is tracked.
    pub fn is_empty(&self) -> (r: bool)
        ensures
            r == (self@.len() == 0),
    {
        self.allocations.len() == 0
    }

    /// Records the outcome of a request for `size` bytes at [`BLOCK_ALIGN`].
    ///
    /// `handle` is what the allocator returned: `None` when it could not satisfy the
    /// request, in which case nothing is tracked. Returns whether a block was pushed.
    pub fn allocate(&mut self, size: usize, handle: Option<H>) -> (r: bool)
        ensures
            r == (handle is Some),
            handle is Some ==> final(self)@ == pushed(old(self)@, size, handle->0),
            handle is None ==> final(self)@ == old(self)@,
    {
        match handle {
            Some(h) => {
                self.allocations.push(TrackedBlock { size, align: BLOCK_ALIGN, handle: h });
                true
            },
            None => false,
        }
    }

    /// Takes the most recently allocated block off the stack and hands it back, so that
    /// the caller can release it. On an empty stack this does nothing and returns `None`.
    pub fn deallocate(&mut self) -> (r: Option<TrackedBlock<H>>)
        ensures
            r == top_of(old(self)@),
            final(self)@ == popped(old(self)@),
            old(self)@.len() == 0 ==> r is None && final(self)@ == old(self)@,
            old(self)@.len() > 0 ==> final(self)@.len() == old(self)@.len() - 1,
    {
        self.allocations.pop()
    }
}

} // verus!
