use vstd::prelude::*;

use crate::heap_counter::{charged, released};
use crate::tracked_stack::{popped, pushed, top_of, TrackedBlock, BLOCK_ALIGN};

verus! {

/// The stack after successful allocations of `sizes`, in order, the `i`-th one
/// returning `handles[i]`.
pub open spec fn push_all<H>(s: Seq<TrackedBlock<H>>, sizes: Seq<usize>, handles: Seq<H>) -> Seq<
    TrackedBlock<H>,
>
    decreases sizes.len(),
{
    if sizes.len() == 0 {
        s
    } else {
        pushed(push_all(s, sizes.drop_last(), handles), sizes.last(), handles[sizes.len() - 1])
    }
}

/// The stack after `n` deallocations.
pub open spec fn pop_n<H>(s: Seq<TrackedBlock<H>>, n: nat) -> Seq<TrackedBlock<H>>
    decreases n,
{
    if n == 0 {
        s
    } else {
        popped(pop_n(s, (n - 1) as nat))
    }
}

/// Sizes of the blocks handed back by `n` deallocations from `s`, in the order handed back.
pub open spec fn popped_sizes<H>(s: Seq<TrackedBlock<H>>, n: nat) -> Seq<usize>
    decreases n,
{
    if n == 0 {
        Seq::empty()
    } else {
        let earlier = popped_sizes(s, (n - 1) as nat);
        match top_of(pop_n(s, (n - 1) as nat)) {
            Some(b) => earlier.push(b.size),
            None => earlier,
        }
    }
}

/// The live-byte counter after allocations of `sizes` are recorded, in order.
pub open spec fn charge_all(live: usize, sizes: Seq<usize>) -> usize
    decreases sizes.len(),
{
    if sizes.len() == 0 {
        live
    } else {
        charged(charge_all(live, sizes.drop_last()), sizes.last())
    }
}

/// The live-byte counter after deallocations of `sizes` are recorded, in order.
pub open spec fn release_all(live: usize, sizes: Seq<usize>) -> usize
    decreases sizes.len(),
{
    if sizes.len() == 0 {
        live
    } else {
        released(release_all(live, sizes.drop_last()), sizes.last())
    }
}

proof fn lemma_release_undoes_charge(live: usize, size: usize)
    ensures
        released(charged(live, size), size) == live,
{
}

proof fn lemma_push_all_len<H>(s: Seq<TrackedBlock<H>>, sizes: Seq<usize>, handles: Seq<H>)
    ensures
        push_all(s, sizes, handles).len() == s.len() + sizes.len(),
    decreases sizes.len(),
{
    if sizes.len() > 0 {
        lemma_push_all_len(s, sizes.drop_last(), handles);
    }
}

/// After `i` of the deallocations that follow allocations of `sizes`, the stack holds
/// the first `k - i` of those blocks and the counter has the value it had right after
/// the first `k - i` allocations.
proof fn lemma_unwind<H>(
    s: Seq<TrackedBlock<H>>,
    live: usize,
    sizes: Seq<usize>,
    handles: Seq<H>,
    i: nat,
)
    requires
        i <= sizes.len(),
    ensures
        pop_n(push_all(s, sizes, handles), i) == push_all(
            s,
            sizes.take(sizes.len() - i),
            handles,
        ),
        release_all(charge_all(live, sizes), popped_sizes(push_all(s, sizes, handles), i))
            == charge_all(live, sizes.take(sizes.len() - i)),
    decreases i,
{
    let k = sizes.len();
    let p = push_all(s, sizes, handles);
    if i == 0 {
        assert(sizes.take(k as int) =~= sizes);
    } else {
        let j = (i - 1) as nat;
        lemma_unwind(s, live, sizes, handles, j);
        let m = k - j;
        let before = sizes.take(m);
        let after = sizes.take(m - 1);
        assert(before.drop_last() =~= after);
        assert(before.last() == sizes[m - 1]);
        let inner = push_all(s, after, handles);
        let top = TrackedBlock { size: sizes[m - 1], align: BLOCK_ALIGN, handle: handles[m - 1] };
        assert(push_all(s, before, handles) == inner.push(top));
        assert(inner.push(top).drop_last() =~= inner);
        assert(top_of(pop_n(p, j)) == Some(top));
        assert(popped_sizes(p, i) == popped_sizes(p, j).push(sizes[m - 1]));
        assert(popped_sizes(p, j).push(sizes[m - 1]).drop_last() =~= popped_sizes(p, j));
        lemma_release_undoes_charge(charge_all(live, after), sizes[m - 1]);
    }
}

/// Allocating blocks of any sizes and then deallocating as many leaves the live-byte
/// counter where it started, and the tracked stack as it was.
pub proof fn lemma_matched_calls_restore<H>(
    s: Seq<TrackedBlock<H>>,
    live: usize,
    sizes: Seq<usize>,
    handles: Seq<H>,
)
    requires
        handles.len() == sizes.len(),
    ensures
        release_all(
            charge_all(live, sizes),
            popped_sizes(push_all(s, sizes, handles), sizes.len()),
        ) == live,
        pop_n(push_all(s, sizes, handles), sizes.len()) == s,
{
    lemma_unwind(s, live, sizes, handles, sizes.len());
    assert(sizes.take(0) =~= Seq::<usize>::empty());
}

/// After `k` successful allocations on an empty stack and `j <= k` deallocations, the
/// stack holds `k - j` blocks.
pub proof fn lemma_length_after_calls<H>(sizes: Seq<usize>, handles: Seq<H>, j: nat)
    requires
        handles.len() == sizes.len(),
        j <= sizes.len(),
    ensures
        pop_n(push_all(Seq::<TrackedBlock<H>>::empty(), sizes, handles), j).len() == sizes.len()
            - j,
{
    let e = Seq::<TrackedBlock<H>>::empty();
    lemma_unwind(e, 0, sizes, handles, j);
    lemma_push_all_len(e, sizes.take(sizes.len() - j), handles);
}

} // verus!
