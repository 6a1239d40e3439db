//! The driver: wraps one computation and drives its whole logical call
//! tree with a trampoline loop, so that resuming never nests native calls.

use vstd::prelude::*;

use crate::frame::Computation;
use crate::frame::DynamicStackFrame;
use crate::frame::FrameResult;
use crate::frame::FrameState;
use crate::stack::view_measure;
use crate::stack::DynamicStack;

verus! {

/// Runs one recursive computation to completion without growing the
/// native call stack: the logical call tree lives on a heap-resident
/// [`DynamicStack`], and a loop stands in for nested resumption.
pub struct HeapRecursive<C, T> {
    stack: DynamicStack<C, T>,
}

impl<C: Computation<T>, T> HeapRecursive<C, T> {
    /// The wrapped computation has not yet delivered its value: the stack
    /// holds at least the outermost frame, every frame is consistent, and
    /// the top frame, if suspended, is not waiting on a frame that is not
    /// there.
    pub closed spec fn is_active(self) -> bool {
        &&& self.stack.wf()
        &&& self.stack@.len() > 0
        &&& (self.stack@.last().1 is Pending ==> self.stack@.last().0.awaiting() is None)
    }

    /// The wrapped computation has completed and its value was returned:
    /// no frame is left.
    pub closed spec fn is_done(self) -> bool {
        self.stack@.len() == 0
    }

    /// The value the wrapped computation will complete with.
    pub closed spec fn spec_target(self) -> T {
        self.stack@[0].0.target()
    }

    /// Wrap `computation`: a fresh stack is seeded with one frame holding
    /// it. Nothing runs until the driver is resumed.
    pub fn wrap(computation: C) -> (r: Self)
        requires
            computation.wf(),
            computation.awaiting() is None,
        ensures
            r.is_active(),
            r.spec_target() == computation.target(),
    {
        let mut stack = DynamicStack::new();
        let _res = stack.push_frame(DynamicStackFrame::new(computation));
        HeapRecursive { stack }
    }

    /// Resume the wrapped computation. The trampoline loop resumes the
    /// top frame; when that pushed a child, the child runs on the next
    /// iteration instead of through a nested call; when the top frame
    /// completed, its caller consumes the value; when the innermost
    /// computation suspends on an external event, `Pending` propagates to
    /// the caller in one step. `Ready` carries exactly the value the
    /// wrapped computation was to produce, and comes exactly once.
    pub fn poll(&mut self) -> (r: FrameResult<T>)
        requires
            old(self).is_active(),
        ensures
            r matches FrameResult::Ready(v) ==> v == old(self).spec_target() && final(
                self).is_done(),
            r is Pending ==> final(self).is_active() && final(self).spec_target() == old(
                self).spec_target(),
    {
        let ghost t = self.stack@[0].0.target();
        loop
            invariant
                self.stack.wf(),
                self.stack@.len() > 0,
                self.stack@.last().1 is Pending ==> self.stack@.last().0.awaiting() is None,
                self.stack@[0].0.target() == t,
                t == old(self).spec_target(),
            decreases view_measure(self.stack@), self.stack@.len(),
        {
            match self.stack.stack_poll_top() {
                FrameState::NewFrameCreated => {},
                FrameState::AsyncYield => {
                    return FrameResult::Pending;
                },
                FrameState::Ready => {
                    if self.stack.has_single_frame() {
                        // The outermost call finished: the whole logical
                        // call tree is done.
                        let mut frame = self.stack.pop_frame();
                        return frame.take_result();
                    } else {
                        // An inner call finished: its caller consumes the
                        // value and continues.
                        match self.stack.stack_poll_prev() {
                            FrameState::NewFrameCreated => {},
                            FrameState::AsyncYield => {
                                return FrameResult::Pending;
                            },
                            FrameState::Ready => {},
                        }
                    }
                },
            }
        }
    }
}

} // verus!
