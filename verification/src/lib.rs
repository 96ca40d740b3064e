//! Bump (arena) allocation: disjoint, aligned regions handed out of one
//! buffer of fixed size by moving a cursor forward, and taken back all at
//! once by moving it to zero.
//!
//! [`allocator::BumpAllocator`] is the arena for one owner: it holds the
//! buffer and the cursor. [`cursor::Cursor`] is the cursor by itself, and
//! [`multi_thread_allocator::ThreadSafeBumpAllocator`] keeps one behind a
//! lock for threads to share. All of them decide a request with
//! [`bump::bump`], which rounds with [`align::align_up`].
//! [`customize_allocator::CustomizeBumpAllocator`] puts the same rule behind
//! the allocation hook of a host runtime, and [`program`] holds what the
//! program's instructions decide.
pub mod align;
pub mod allocator;
pub mod bump;
pub mod cursor;
pub mod customize_allocator;
pub mod multi_thread_allocator;
pub mod program;
pub mod region;
