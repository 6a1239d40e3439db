//! Heap-resident recursion: run deeply recursive computations without
//! growing the native call stack.
//!
//! A recursive computation is expressed as a resumable state machine
//! (the [`frame::Computation`] trait). Each logical call level lives in a
//! heap-allocated [`frame::DynamicStackFrame`]; the frames form a singly
//! linked [`stack::DynamicStack`] whose top is the innermost call. The
//! [`wrapper::HeapRecursive`] driver resumes the top frame in a trampoline
//! loop, so the native call depth stays constant while the logical
//! recursion depth is bounded only by the heap.

pub mod computations;
pub mod context;
pub mod frame;
pub mod stack;
pub mod unroll;
pub mod wrapper;

pub use unroll::UnrollBox;
pub use wrapper::HeapRecursive;
