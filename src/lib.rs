//! Bookkeeping for a live memory-usage display: the live-byte counter kept by an
//! allocation hook, a stack of blocks allocated on request and released last-first,
//! an approximate stack-depth figure, the block counts a display draws, and the
//! commands that drive it.

pub mod call_sequences;
pub mod command;
pub mod heap_counter;
pub mod render;
pub mod stack_depth;
pub mod tracked_stack;
