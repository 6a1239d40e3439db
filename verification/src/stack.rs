//! The heap-resident stack: a singly linked list of frames, top first,
//! with a one-shot growth flag.

use vstd::prelude::*;

use crate::context::RecursionContext;
use crate::frame::chain_inv_of;
use crate::frame::chain_of;
use crate::frame::lemma_chain_inv_content;
use crate::frame::lemma_chain_inv_none;
use crate::frame::lemma_chain_inv_some;
use crate::frame::lemma_chain_none;
use crate::frame::lemma_chain_some;
use crate::frame::lemma_inv_ignores_link;
use crate::frame::Computation;
use crate::frame::DynamicStackFrame;
use crate::frame::DynamicStackFrameBox;
use crate::frame::FrameResult;
use crate::frame::FrameState;

verus! {

/// A typed handle to one frame's result slot. It records, at the
/// specification level, the value that the frame's computation will
/// deliver there.
#[derive(Clone, Copy)]
pub struct ResultRef<R> {
    expected: Ghost<R>,
}

impl<R> ResultRef<R> {
    /// The value the identified slot will be completed with.
    pub closed spec fn spec_expected(self) -> R {
        self.expected@
    }

    /// A handle for a slot whose completed value will be `expected`.
    pub(crate) fn for_expected(expected: Ghost<R>) -> (r: Self)
        ensures
            r.spec_expected() == expected@,
    {
        ResultRef { expected }
    }
}

/// The total remaining work of a stack's frames.
pub open spec fn view_measure<C: Computation<T>, T>(s: Seq<(C, FrameResult<T>)>) -> nat
    decreases s.len(),
{
    if s.len() == 0 {
        0
    } else {
        view_measure(s.drop_last()) + s.last().0.measure()
    }
}

/// Appending a frame adds its computation's work to the total.
pub proof fn lemma_view_measure_push<C: Computation<T>, T>(
    s: Seq<(C, FrameResult<T>)>,
    x: (C, FrameResult<T>),
)
    ensures
        view_measure(s.push(x)) == view_measure(s) + x.0.measure(),
{
    assert(s.push(x).drop_last() =~= s);
}

/// The stack of suspended frames: a singly linked chain owned through its
/// top (the innermost call), and the growth flag that records whether the
/// most recent resumption pushed a new frame.
pub struct DynamicStack<C, T> {
    stack_top: Option<Box<DynamicStackFrame<C, T>>>,
    flag: bool,
}

impl<C, T> View for DynamicStack<C, T> {
    type V = Seq<(C, FrameResult<T>)>;

    /// The stack's frames, bottom (outermost call) first: each frame as
    /// its computation and its result slot.
    closed spec fn view(&self) -> Seq<(C, FrameResult<T>)> {
        chain_of(self.stack_top)
    }
}

impl<C, T> DynamicStack<C, T> {
    /// The number of frames on the stack.
    pub closed spec fn depth(self) -> nat {
        chain_of(self.stack_top).len()
    }

    /// Release all frames iteratively: tearing down a chain of depth N
    /// must not nest N destructor calls, or deep teardown would overflow
    /// the native stack just as deep recursion would.
    pub fn release_frames(&mut self)
        ensures
            final(self).depth() == 0,
        opens_invariants none
        no_unwind
    {
        loop
            invariant
                true,
            ensures
                self.stack_top is None,
            decreases chain_of(self.stack_top).len(),
        {
            match crate::frame::exchange(&mut self.stack_top, None) {
                None => {
                    break ;
                },
                Some(mut top) => {
                    proof {
                        lemma_chain_some(top);
                    }
                    self.stack_top = top.take_prev();
                },
            }
        }
        proof {
            lemma_chain_none::<C, T>();
        }
    }
}

impl<C, T> Drop for DynamicStack<C, T> {
    /// Discarding the stack releases every remaining frame iteratively.
    fn drop(&mut self)
        opens_invariants none
        no_unwind
    {
        self.release_frames();
    }
}

impl<C: Computation<T>, T> DynamicStack<C, T> {
    /// Every frame of the stack is consistent: see
    /// [`crate::frame::lemma_chain_inv_content`] for what this guarantees
    /// of the stack's content.
    pub closed spec fn wf(self) -> bool {
        chain_inv_of(self.stack_top)
    }

    /// The growth flag: set when a frame was pushed during the most
    /// recent resumption, cleared by whoever reads it.
    pub closed spec fn growth_flag(self) -> bool {
        self.flag
    }

    /// An empty stack with a clear growth flag.
    pub fn new() -> (r: Self)
        ensures
            r@ == Seq::<(C, FrameResult<T>)>::empty(),
            r.wf(),
            !r.growth_flag(),
    {
        proof {
            lemma_chain_none::<C, T>();
            lemma_chain_inv_none::<C, T>();
        }
        DynamicStack { stack_top: None, flag: false }
    }

    /// Raise the growth flag.
    pub fn set_flag(&mut self)
        ensures
            final(self)@ == old(self)@,
            final(self).wf() == old(self).wf(),
            final(self).growth_flag(),
    {
        self.flag = true;
    }

    /// Read and clear the growth flag.
    pub fn clear_flag(&mut self) -> (r: bool)
        ensures
            final(self)@ == old(self)@,
            final(self).wf() == old(self).wf(),
            !final(self).growth_flag(),
            r == old(self).growth_flag(),
    {
        let prev = self.flag;
        self.flag = false;
        prev
    }

    /// Whether no frame is left.
    pub fn is_empty(&self) -> (r: bool)
        ensures
            r == (self@.len() == 0),
    {
        proof {
            lemma_chain_none::<C, T>();
            if let Some(f) = &self.stack_top {
                lemma_chain_some(*f);
            }
        }
        self.stack_top.is_none()
    }

    /// Whether exactly one frame is left: the whole logical call tree has
    /// wound down to (or never grew beyond) the outermost call.
    pub fn has_single_frame(&self) -> (r: bool)
        ensures
            r == (self@.len() == 1),
    {
        proof {
            lemma_chain_none::<C, T>();
            if let Some(f) = &self.stack_top {
                lemma_chain_some(*f);
                if let Some(p) = f.prev_link() {
                    lemma_chain_some(p);
                }
            }
        }
        match &self.stack_top {
            None => false,
            Some(f) => f.get_prev().is_none(),
        }
    }

    /// Link `frame` on top of the stack: it becomes the innermost call.
    /// The handle to its result slot is returned.
    pub fn push_frame(&mut self, frame: DynamicStackFrameBox<C, T>) -> (r: ResultRef<T>)
        requires
            old(self).wf(),
            frame.frame().inv(),
            frame.frame().slot() is Pending,
            old(self)@.len() > 0 ==> old(self)@.last().1 is Pending
                && old(self)@.last().0.awaiting() == Some(frame.frame().spec_computation().target()),
        ensures
            final(self).wf(),
            final(self)@ == old(self)@.push(
                (frame.frame().spec_computation(), frame.frame().slot()),
            ),
            final(self).growth_flag() == old(self).growth_flag(),
            r.spec_expected() == frame.frame().spec_computation().target(),
    {
        let ghost fr = frame.frame();
        let mut b = frame.into_inner();
        let prev = self.stack_top.take();
        proof {
            if let Some(p) = &prev {
                lemma_chain_some(*p);
            } else {
                lemma_chain_none::<C, T>();
            }
        }
        b.set_prev(prev);
        proof {
            lemma_inv_ignores_link(fr, *b);
            lemma_chain_some(b);
            lemma_chain_inv_some(b);
        }
        self.stack_top = Some(b);
        ResultRef::for_expected(Ghost(fr.spec_computation().target()))
    }

    /// Unlink and return the top frame, severing its link to its caller.
    pub fn pop_frame(&mut self) -> (r: DynamicStackFrameBox<C, T>)
        requires
            old(self).wf(),
            old(self)@.len() > 0,
        ensures
            final(self).wf(),
            final(self)@ == old(self)@.drop_last(),
            final(self).growth_flag() == old(self).growth_flag(),
            r.frame().spec_computation() == old(self)@.last().0,
            r.frame().slot() == old(self)@.last().1,
            r.frame().prev_link() is None,
            r.frame().inv(),
    {
        proof {
            lemma_chain_none::<C, T>();
            if let Some(f) = &self.stack_top {
                lemma_chain_some(*f);
                lemma_chain_inv_some(*f);
            }
        }
        let mut b = self.stack_top.take().unwrap();
        let ghost before = *b;
        let rest = b.take_prev();
        proof {
            lemma_inv_ignores_link(before, *b);
            assert(chain_of(rest).push((before.spec_computation(), before.slot())).drop_last()
                =~= chain_of(rest));
        }
        self.stack_top = rest;
        DynamicStackFrameBox::from_inner(b)
    }

    /// Take the completed value out of the slot `res` identifies — the
    /// slot of the top frame — leaving the slot pending: the value is
    /// consumed at most once.
    pub fn get_result(&mut self, res: ResultRef<T>) -> (r: FrameResult<T>)
        requires
            old(self).wf(),
            old(self)@.len() > 0,
            res.spec_expected() == old(self)@.last().0.target(),
        ensures
            final(self).wf(),
            final(self)@ == old(self)@.drop_last().push((old(self)@.last().0, FrameResult::Pending)),
            final(self).growth_flag() == old(self).growth_flag(),
            r == old(self)@.last().1,
            r matches FrameResult::Ready(v) ==> v == res.spec_expected(),
    {
        proof {
            lemma_chain_none::<C, T>();
            if let Some(f) = &self.stack_top {
                lemma_chain_some(*f);
                lemma_chain_inv_some(*f);
            }
        }
        let mut b = self.stack_top.take().unwrap();
        let ghost before = *b;
        let r = b.take_result();
        proof {
            lemma_chain_some(b);
            lemma_chain_inv_some(b);
            assert(chain_of(before.prev_link()).push((before.spec_computation(), before.slot()))
                .drop_last() =~= chain_of(before.prev_link()));
        }
        self.stack_top = Some(b);
        r
    }

    /// Frames can only complete in reverse order of pushing: in a
    /// consistent stack only the top (most recently pushed) frame can
    /// hold a completed value, and every caller below it is still
    /// suspended, waiting for exactly the value its own pushed child will
    /// produce. So a caller never observes a child's result before that
    /// child has completed.
    pub proof fn lemma_lifo_completion(self)
        requires
            self.wf(),
        ensures
            forall|i: int|
                0 <= i < self@.len() - 1 ==> (#[trigger] self@[i]).1 is Pending
                    && self@[i].0.awaiting() == Some(self@[i + 1].0.target()),
            self@.len() > 0 ==> (self@.last().1 matches FrameResult::Ready(v) ==> v
                == self@.last().0.target()),
    {
        lemma_chain_inv_content(self.stack_top);
    }

    /// Resume the top frame once, delivering `delivered` to its
    /// outstanding call site. The growth flag is cleared before the
    /// resumption; a recursive call made during it pushes the new frame
    /// and raises the flag; the flag, read afterwards, decides the
    /// classification: a push takes priority over everything else.
    fn resume_top_with(&mut self, delivered: FrameResult<T>) -> (r: FrameState)
        requires
            old(self).wf(),
            old(self)@.len() > 0,
            old(self)@.last().1 is Pending ==> match old(self)@.last().0.awaiting() {
                Some(v) => delivered == FrameResult::Ready(v),
                None => delivered is Pending,
            },
        ensures
            final(self).wf(),
            final(self)@.len() > 0,
            final(self)@[0].0.target() == old(self)@[0].0.target(),
            match r {
                FrameState::NewFrameCreated => {
                    &&& final(self)@.len() == old(self)@.len() + 1
                    &&& view_measure(final(self)@) < view_measure(old(self)@)
                    &&& final(self)@.last().1 is Pending
                    &&& final(self)@.last().0.awaiting() is None
                },
                FrameState::AsyncYield => {
                    &&& final(self)@.len() == old(self)@.len()
                    &&& view_measure(final(self)@) <= view_measure(old(self)@)
                    &&& final(self)@.last().1 is Pending
                    &&& final(self)@.last().0.awaiting() is None
                },
                FrameState::Ready => {
                    &&& final(self)@.len() == old(self)@.len()
                    &&& view_measure(final(self)@) <= view_measure(old(self)@)
                    &&& final(self)@.last().1 matches FrameResult::Ready(v) && v == final(
                        self)@.last().0.target()
                },
            },
    {
        let ghost oldv = self@;
        proof {
            lemma_chain_inv_content(self.stack_top);
            if let Some(f) = &self.stack_top {
                lemma_chain_some(*f);
                lemma_chain_inv_some(*f);
            } else {
                lemma_chain_none::<C, T>();
            }
        }
        let mut top = crate::frame::exchange(&mut self.stack_top, None).unwrap();
        let ghost oldtop = *top;
        let mut ctx = RecursionContext::new(delivered);
        let _ = self.clear_flag();
        let st = top.stack_poll(&mut ctx);
        proof {
            lemma_chain_some(top);
            lemma_chain_inv_some(top);
            lemma_view_measure_push(
                chain_of(oldtop.prev_link()),
                (oldtop.spec_computation(), oldtop.slot()),
            );
            lemma_view_measure_push(
                chain_of(oldtop.prev_link()),
                (top.spec_computation(), top.slot()),
            );
        }
        self.stack_top = Some(top);
        match ctx.take_pushed() {
            None => {},
            Some(fb) => {
                proof {
                    lemma_view_measure_push(self@, (fb.frame().spec_computation(), fb.frame().slot()));
                }
                let _res = self.push_frame(fb);
                self.set_flag();
            },
        }
        let grew = self.clear_flag();
        if grew {
            FrameState::NewFrameCreated
        } else {
            st
        }
    }

    /// Resume the top frame: the innermost suspended call runs next.
    pub fn stack_poll_top(&mut self) -> (r: FrameState)
        requires
            old(self).wf(),
            old(self)@.len() > 0,
            old(self)@.last().1 is Pending ==> old(self)@.last().0.awaiting() is None,
        ensures
            final(self).wf(),
            final(self)@.len() > 0,
            final(self)@[0].0.target() == old(self)@[0].0.target(),
            match r {
                FrameState::NewFrameCreated => {
                    &&& final(self)@.len() == old(self)@.len() + 1
                    &&& view_measure(final(self)@) < view_measure(old(self)@)
                    &&& final(self)@.last().1 is Pending
                    &&& final(self)@.last().0.awaiting() is None
                },
                FrameState::AsyncYield => {
                    &&& final(self)@.len() == old(self)@.len()
                    &&& view_measure(final(self)@) <= view_measure(old(self)@)
                    &&& final(self)@.last().1 is Pending
                    &&& final(self)@.last().0.awaiting() is None
                },
                FrameState::Ready => {
                    &&& final(self)@.len() == old(self)@.len()
                    &&& view_measure(final(self)@) <= view_measure(old(self)@)
                    &&& final(self)@.last().1 matches FrameResult::Ready(v) && v == final(
                        self)@.last().0.target()
                },
            },
    {
        self.resume_top_with(FrameResult::Pending)
    }

    /// A child on top of the stack has completed: consume its value, pop
    /// and destroy its frame, and resume the caller below it with the
    /// value. This is how a completed call hands control back to the
    /// frame that made it.
    pub fn stack_poll_prev(&mut self) -> (r: FrameState)
        requires
            old(self).wf(),
            old(self)@.len() >= 2,
            old(self)@.last().1 is Ready,
        ensures
            final(self).wf(),
            final(self)@.len() > 0,
            final(self)@[0].0.target() == old(self)@[0].0.target(),
            match r {
                FrameState::NewFrameCreated => {
                    &&& final(self)@.len() == old(self)@.len()
                    &&& view_measure(final(self)@) < view_measure(old(self)@)
                    &&& final(self)@.last().1 is Pending
                    &&& final(self)@.last().0.awaiting() is None
                },
                FrameState::AsyncYield => {
                    &&& final(self)@.len() == old(self)@.len() - 1
                    &&& view_measure(final(self)@) <= view_measure(old(self)@)
                    &&& final(self)@.last().1 is Pending
                    &&& final(self)@.last().0.awaiting() is None
                },
                FrameState::Ready => {
                    &&& final(self)@.len() == old(self)@.len() - 1
                    &&& view_measure(final(self)@) <= view_measure(old(self)@)
                    &&& final(self)@.last().1 matches FrameResult::Ready(v) && v == final(
                        self)@.last().0.target()
                },
            },
    {
        let ghost oldv = self@;
        proof {
            lemma_chain_inv_content(self.stack_top);
        }
        let res = ResultRef::for_expected(Ghost(oldv.last().0.target()));
        let delivered = self.get_result(res);
        let child = self.pop_frame();
        proof {
            assert(oldv.drop_last().push((oldv.last().0, FrameResult::Pending)).drop_last()
                =~= oldv.drop_last());
            assert(self@ =~= oldv.drop_last());
            assert(self@.last() == oldv[oldv.len() - 2]);
        }
        self.resume_top_with(delivered)
    }
}

} // verus!
