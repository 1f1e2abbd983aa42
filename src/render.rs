use vstd::prelude::*;

verus! {

/// Bytes in a kilobyte.
pub const KB: usize = 1024;

/// Kilobytes that one display block stands for.
pub const SCALE: usize = 64;

/// The glyph a usage bar is drawn with.
pub const BLOCK_GLYPH: char = '█';

/// Number of blocks drawn for `bytes`: one per full `SCALE` kilobytes, and never fewer than one.
pub open spec fn blocks_for(bytes: usize) -> nat {
    let n = bytes as nat / (KB as nat) / (SCALE as nat);
    if n >= 1 {
        n
    } else {
        1
    }
}

/// What one refresh of the display shows for the stack and the heap.
#[derive(Clone, Copy, Debug, PartialEq, Eq)]
pub struct UsageReport {
    pub stack_bytes: usize,
    pub heap_bytes: usize,
    pub stack_kb: usize,
    pub heap_kb: usize,
    pub stack_blocks: usize,
    pub heap_blocks: usize,
}

/// Number of display blocks for `bytes` of usage; at least one, so a bar is never empty.
pub fn display_blocks(bytes: usize) -> (r: usize)
    ensures
        r as nat == blocks_for(bytes),
        r >= 1,
{
    let n = bytes / KB / SCALE;
    if n >= 1 {
        n
    } else {
        1
    }
}

/// Maps heap and stack usage to the figures the display shows.
pub fn render(heap_bytes: usize, stack_bytes: usize) -> (r: UsageReport)
    ensures
        r.heap_bytes == heap_bytes,
        r.stack_bytes == stack_bytes,
        r.heap_kb == heap_bytes / KB,
        r.stack_kb == stack_bytes / KB,
        r.heap_blocks as nat == blocks_for(heap_bytes),
        r.stack_blocks as nat == blocks_for(stack_bytes),
        r.heap_blocks >= 1,
        r.stack_blocks >= 1,
{
    UsageReport {
        stack_bytes,
        heap_bytes,
        stack_kb: stack_bytes / KB,
        heap_kb: heap_bytes / KB,
        stack_blocks: display_blocks(stack_bytes),
        heap_blocks: display_blocks(heap_bytes),
    }
}

/// A bar of `blocks` glyphs.
pub fn bar(blocks: usize) -> (r: String)
    ensures
        r@ == Seq::new(blocks as nat, |i: int| BLOCK_GLYPH),
{
    let mut s = String::new();
    let mut i: usize = 0;
    while i < blocks
        invariant
            i <= blocks,
            s@ == Seq::new(i as nat, |k: int| BLOCK_GLYPH),
        decreases blocks - i,
    {
        proof {
            reveal_strlit("█");
        }
        s.append("█");
        i = i + 1;
        assert(s@ =~= Seq::new(i as nat, |k: int| BLOCK_GLYPH));
    }
    s
}

} // verus!
