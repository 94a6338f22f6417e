//! Core of a small cooperative kernel: a size-class heap allocator, a
//! cooperative task executor with wakers, the keyboard queues that feed it,
//! and the shell's line editing and text console.
pub mod allocator;
pub mod devices;
pub mod editor;
pub mod executor;
pub mod interrupts;
pub mod keyboard;
pub mod once;
pub mod queue;
pub mod readline;
pub mod simple_executor;
pub mod task;
pub mod text;
