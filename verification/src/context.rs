//! The recursion context: the channel through which a resuming computation
//! reaches the stack that is driving it.
//!
//! One context exists for the duration of one resumption of one frame. The
//! stack fills in the delivered child value before the resumption and
//! collects the push request afterwards, so a call site never needs a
//! reference to the stack that contains it.

use vstd::prelude::*;

use crate::frame::DynamicStackFrameBox;
use crate::frame::FrameResult;

verus! {

/// Per-resumption context: the delivered result of the frame's outstanding
/// recursive call (if any), and at most one request to push a new frame.
pub struct RecursionContext<C, T> {
    pushed: Option<DynamicStackFrameBox<C, T>>,
    child: FrameResult<T>,
}

impl<C, T> RecursionContext<C, T> {
    /// The pending push request.
    pub closed spec fn spec_pushed(self) -> Option<DynamicStackFrameBox<C, T>> {
        self.pushed
    }

    /// The delivered child value, not yet consumed by a call site.
    pub closed spec fn spec_child(self) -> FrameResult<T> {
        self.child
    }

    /// A context for one resumption, delivering `child` to the resumed
    /// computation's outstanding call site.
    pub fn new(child: FrameResult<T>) -> (r: Self)
        ensures
            r.spec_pushed() is None,
            r.spec_child() == child,
    {
        RecursionContext { pushed: None, child }
    }

    /// Consume the delivered child value; a second read yields `Pending`.
    pub fn take_child(&mut self) -> (r: FrameResult<T>)
        ensures
            r == old(self).spec_child(),
            final(self).spec_child() is Pending,
            final(self).spec_pushed() == old(self).spec_pushed(),
    {
        crate::frame::exchange(&mut self.child, FrameResult::Pending)
    }

    /// Record the request to push `frame` onto the driving stack. At most
    /// one recursive call can be started per resumption.
    pub fn push(&mut self, frame: DynamicStackFrameBox<C, T>)
        requires
            old(self).spec_pushed() is None,
        ensures
            final(self).spec_pushed() == Some(frame),
            final(self).spec_child() == old(self).spec_child(),
    {
        self.pushed = Some(frame);
    }

    /// Collect the push request, leaving the context empty.
    pub fn take_pushed(&mut self) -> (r: Option<DynamicStackFrameBox<C, T>>)
        ensures
            r == old(self).spec_pushed(),
            final(self).spec_pushed() is None,
            final(self).spec_child() == old(self).spec_child(),
    {
        self.pushed.take()
    }

    /// Whether a push request is pending.
    pub fn has_pushed(&self) -> (r: bool)
        ensures
            r == (self.spec_pushed() is Some),
    {
        self.pushed.is_some()
    }
}

} // verus!
