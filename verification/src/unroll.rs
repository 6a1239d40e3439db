//! The call-site handle: the per-recursive-call object that pushes a child
//! frame on its first resumption and afterwards waits for the child's
//! completed value.

use vstd::prelude::*;

use crate::context::RecursionContext;
use crate::frame::Computation;
use crate::frame::DynamicStackFrame;
use crate::frame::DynamicStackFrameBox;
use crate::frame::FrameResult;
use crate::stack::ResultRef;

verus! {

/// The three states of one recursive call site.
pub enum UnrollState<C, T> {
    /// The child computation has not been started; its frame is allocated
    /// but not yet pushed.
    Idle(DynamicStackFrameBox<C, T>),
    /// The child frame has been pushed; the handle identifies its result
    /// slot.
    Executing(ResultRef<T>),
    /// The child's value has been consumed; the call is over.
    Finished,
}

/// The per-recursive-call handle, holding the call site's state machine.
pub struct UnrollBox<C, T> {
    state: UnrollState<C, T>,
}

impl<C, T> UnrollBox<C, T> {
    pub closed spec fn is_idle(self) -> bool {
        self.state is Idle
    }

    /// The three call-site states are mutually exclusive and exhaustive.
    pub proof fn lemma_state_exclusive(self)
        ensures
            !(self.is_idle() && self.is_executing()),
            !(self.is_idle() && self.is_finished()),
            !(self.is_executing() && self.is_finished()),
            self.is_idle() || self.is_executing() || self.is_finished(),
    {
    }

    pub closed spec fn is_executing(self) -> bool {
        self.state is Executing
    }

    pub closed spec fn is_finished(self) -> bool {
        self.state is Finished
    }
}

impl<C: Computation<T>, T> UnrollBox<C, T> {
    /// The value the child computation will complete with.
    pub closed spec fn spec_expected(self) -> T {
        match self.state {
            UnrollState::Idle(fb) => fb.frame().spec_computation().target(),
            UnrollState::Executing(rr) => rr.spec_expected(),
            UnrollState::Finished => arbitrary(),
        }
    }

    /// The remaining work of the not-yet-started child computation.
    pub closed spec fn spec_measure(self) -> nat {
        match self.state {
            UnrollState::Idle(fb) => fb.frame().spec_computation().measure(),
            _ => 0,
        }
    }

    /// An idle handle holds a freshly allocated, well-formed child frame.
    pub closed spec fn wf(self) -> bool {
        match self.state {
            UnrollState::Idle(fb) => {
                &&& fb.frame().call_site_spec() is None
                &&& fb.frame().slot() is Pending
                &&& fb.frame().prev_link() is None
                &&& fb.frame().spec_computation().wf()
                &&& fb.frame().spec_computation().awaiting() is None
            },
            _ => true,
        }
    }

    /// A call site for one recursive invocation of `computation`.
    pub fn new(computation: C) -> (r: Self)
        requires
            computation.wf(),
            computation.awaiting() is None,
        ensures
            r.wf(),
            r.is_idle(),
            !r.is_executing(),
            !r.is_finished(),
            r.spec_expected() == computation.target(),
            r.spec_measure() == computation.measure(),
    {
        UnrollBox { state: UnrollState::Idle(DynamicStackFrame::new(computation)) }
    }

    /// Resume the call site once. On the first resumption the child frame
    /// is handed to the context as a push request and the call site starts
    /// waiting; afterwards it consumes the delivered child value, if one
    /// has arrived.
    pub fn poll(&mut self, ctx: &mut RecursionContext<C, T>) -> (r: FrameResult<T>)
        requires
            old(self).wf(),
            !old(self).is_finished(),
            old(ctx).spec_pushed() is None,
            old(self).is_executing() ==> (old(ctx).spec_child() matches FrameResult::Ready(v) ==> v
                == old(self).spec_expected()),
        ensures
            final(self).wf(),
            old(self).is_idle() ==> {
                &&& r is Pending
                &&& final(self).is_executing()
                &&& final(self).spec_expected() == old(self).spec_expected()
                &&& final(ctx).spec_child() == old(ctx).spec_child()
                &&& final(ctx).spec_pushed() matches Some(fb) && {
                    &&& fb.frame().call_site_spec() is None
                    &&& fb.frame().slot() is Pending
                    &&& fb.frame().prev_link() is None
                    &&& fb.frame().spec_computation().wf()
                    &&& fb.frame().spec_computation().awaiting() is None
                    &&& fb.frame().spec_computation().target() == old(self).spec_expected()
                    &&& fb.frame().spec_computation().measure() == old(self).spec_measure()
                }
            },
            old(self).is_executing() ==> match old(ctx).spec_child() {
                FrameResult::Pending => {
                    &&& r is Pending
                    &&& final(self).is_executing()
                    &&& final(self).spec_expected() == old(self).spec_expected()
                    &&& final(ctx).spec_child() is Pending
                    &&& final(ctx).spec_pushed() == old(ctx).spec_pushed()
                },
                FrameResult::Ready(v) => {
                    &&& r == FrameResult::Ready(v)
                    &&& final(self).is_finished()
                    &&& final(ctx).spec_child() is Pending
                    &&& final(ctx).spec_pushed() == old(ctx).spec_pushed()
                },
            },
    {
        let cur = crate::frame::exchange(&mut self.state, UnrollState::Finished);
        match cur {
            UnrollState::Idle(fb) => {
                let ghost expected = fb.frame().spec_computation().target();
                ctx.push(fb);
                self.state = UnrollState::Executing(ResultRef::for_expected(Ghost(expected)));
                FrameResult::Pending
            },
            UnrollState::Executing(rr) => {
                match ctx.take_child() {
                    FrameResult::Pending => {
                        self.state = UnrollState::Executing(rr);
                        FrameResult::Pending
                    },
                    FrameResult::Ready(v) => FrameResult::Ready(v),
                }
            },
            UnrollState::Finished => {
                // Excluded by the precondition: a call site must not be
                // resumed after its value was consumed.
                proof {
                    old(self).lemma_state_exclusive();
                }
                vstd::pervasive::unreached()
            },
        }
    }
}

} // verus!
