//! Frames: heap-allocated containers for one suspended computation each,
//! linked into a stack, together with the interface that suspended
//! computations implement.

use vstd::prelude::*;

use crate::context::RecursionContext;
use crate::unroll::UnrollBox;

verus! {

/// Move `value` into `dest` and return what `dest` held before.
pub(crate) fn exchange<T>(dest: &mut T, value: T) -> (r: T)
    ensures
        r == *old(dest),
        *final(dest) == value,
    opens_invariants none
    no_unwind
{
    let mut value = value;
    core::mem::swap(dest, &mut value);
    value
}

/// The result slot stored in every frame: the outcome of the most recent
/// resumption of its computation. `Pending` either means the computation
/// has not finished yet, or that a completed value was already consumed.
pub enum FrameResult<T> {
    Pending,
    Ready(T),
}


/// Classification of one resumption of a frame, as seen by the trampoline.
#[derive(Clone, Copy, Debug, Hash, PartialEq, Eq, Structural)]
pub enum FrameState {
    /// The resumption pushed a new frame: the new top must run next.
    NewFrameCreated,
    /// The computation suspended on a genuine external wait.
    AsyncYield,
    /// The computation finished; its result slot is filled.
    Ready,
}

/// What a computation asks for when it is resumed once: suspend on an
/// external event, recurse into a child computation, or finish.
pub enum Step<C, T> {
    Yield,
    Call(C),
    Done(T),
}

/// A resumable recursive computation.
///
/// A value of an implementing type is one suspended activation: resuming
/// it runs the activation up to its next suspension point. A recursive
/// call is made by returning [`Step::Call`]; the child's completed value
/// is handed to the next resumption of the caller.
///
/// The specification functions describe the activation: `target` is the
/// value it will produce, `awaiting` the child value it expects next (if
/// it has an outstanding recursive call), and `measure` an upper bound on
/// the work that remains, which makes the trampoline provably terminating.
pub trait Computation<T>: Sized {
    /// The activation is in a consistent state.
    spec fn wf(self) -> bool;

    /// The value this activation completes with.
    spec fn target(self) -> T;

    /// `Some(v)`: the activation has an outstanding recursive call whose
    /// completed value will be `v`. `None`: it has no outstanding call.
    spec fn awaiting(self) -> Option<T>;

    /// Remaining work, counting this activation and all recursive calls
    /// it has yet to make.
    spec fn measure(self) -> nat;

    /// Run the activation once, up to its next suspension point.
    /// `delivered` is the completed value of the outstanding recursive
    /// call, exactly when one is outstanding.
    fn resume(&mut self, delivered: Option<T>) -> (s: Step<Self, T>)
        requires
            old(self).wf(),
            delivered == old(self).awaiting(),
        ensures
            final(self).wf(),
            final(self).target() == old(self).target(),
            final(self).measure() <= old(self).measure(),
            s matches Step::Done(v) ==> v == old(self).target() && final(self).awaiting()
                is None,
            s matches Step::Call(c) ==> {
                &&& c.wf()
                &&& c.awaiting() is None
                &&& final(self).awaiting() == Some(c.target())
                &&& final(self).measure() + c.measure() < old(self).measure()
            },
            s is Yield ==> final(self).awaiting() is None;
}

/// One frame of the heap-resident stack: a suspended computation, its
/// result slot, the call-site handle of its outstanding recursive call
/// (if any), and the link to its caller's frame.
pub struct DynamicStackFrame<C, T> {
    prev: Option<Box<DynamicStackFrame<C, T>>>,
    computation: C,
    result: FrameResult<T>,
    call_site: Option<UnrollBox<C, T>>,
}

/// An owning handle to one heap-allocated frame, as handed around between
/// call sites and the stack.
pub struct DynamicStackFrameBox<C, T> {
    value: Box<DynamicStackFrame<C, T>>,
}

impl<C, T> DynamicStackFrame<C, T> {
    /// The suspended computation held by this frame.
    pub closed spec fn spec_computation(self) -> C {
        self.computation
    }

    /// The frame's result slot.
    pub closed spec fn slot(self) -> FrameResult<T> {
        self.result
    }

    /// The link to the caller's frame.
    pub closed spec fn prev_link(self) -> Option<Box<DynamicStackFrame<C, T>>> {
        self.prev
    }

    /// The call-site handle of the outstanding recursive call, if any.
    pub closed spec fn call_site_spec(self) -> Option<UnrollBox<C, T>> {
        self.call_site
    }

    /// Whether the computation has completed and its value is still in
    /// the slot.
    pub fn is_ready(&self) -> (r: bool)
        ensures
            r == (self.slot() is Ready),
    {
        match self.result {
            FrameResult::Ready(_) => true,
            FrameResult::Pending => false,
        }
    }

    /// The link to the caller's frame.
    pub fn get_prev(&self) -> (r: &Option<Box<DynamicStackFrame<C, T>>>)
        ensures
            *r == self.prev_link(),
    {
        &self.prev
    }

    /// Replace the link to the caller's frame.
    pub fn set_prev(&mut self, prev: Option<Box<DynamicStackFrame<C, T>>>)
        ensures
            final(self).prev_link() == prev,
            final(self).spec_computation() == old(self).spec_computation(),
            final(self).slot() == old(self).slot(),
            final(self).call_site_spec() == old(self).call_site_spec(),
    {
        self.prev = prev;
    }

    /// Unlink the frame from its caller, returning the link.
    pub fn take_prev(&mut self) -> (r: Option<Box<DynamicStackFrame<C, T>>>)
        ensures
            r == old(self).prev_link(),
            final(self).prev_link() is None,
            final(self).spec_computation() == old(self).spec_computation(),
            final(self).slot() == old(self).slot(),
            final(self).call_site_spec() == old(self).call_site_spec(),
        opens_invariants none
        no_unwind
    {
        exchange(&mut self.prev, None)
    }
}

/// The abstract content of a chain of frames, bottom frame first, the
/// frame holding `link` itself last: each frame contributes its
/// computation and its result slot.
pub closed spec fn chain_of<C, T>(link: Option<Box<DynamicStackFrame<C, T>>>) -> Seq<
    (C, FrameResult<T>),
>
    decreases link,
{
    match link {
        None => Seq::empty(),
        Some(f) => chain_of(f.prev).push((f.computation, f.result)),
    }
}

impl<C: Computation<T>, T> DynamicStackFrame<C, T> {
    /// The frame's internal consistency: the computation is well formed,
    /// the call-site handle is present exactly while the computation has
    /// an outstanding recursive call and then records the value the
    /// computation expects, and a completed slot holds the computation's
    /// own result.
    pub closed spec fn inv(self) -> bool {
        &&& self.computation.wf()
        &&& match self.call_site {
            None => self.computation.awaiting() is None,
            Some(ub) => {
                &&& ub.wf()
                &&& ub.is_executing()
                &&& self.computation.awaiting() == Some(ub.spec_expected())
            },
        }
        &&& (self.result matches FrameResult::Ready(v) ==> v == self.computation.target())
    }

    /// Allocate a frame for a computation that has not yet run: its slot
    /// is pending and it is not linked under any caller.
    pub fn new(computation: C) -> (r: DynamicStackFrameBox<C, T>)
        requires
            computation.wf(),
            computation.awaiting() is None,
        ensures
            r.frame().spec_computation() == computation,
            r.frame().slot() is Pending,
            r.frame().prev_link() is None,
            r.frame().call_site_spec() is None,
            r.frame().inv(),
    {
        DynamicStackFrameBox {
            value: Box::new(
                DynamicStackFrame {
                    prev: None,
                    computation,
                    result: FrameResult::Pending,
                    call_site: None,
                },
            ),
        }
    }

    /// Take the result out of the slot, leaving it pending: a completed
    /// value is consumed at most once.
    pub fn take_result(&mut self) -> (r: FrameResult<T>)
        ensures
            r == old(self).slot(),
            final(self).slot() is Pending,
            final(self).spec_computation() == old(self).spec_computation(),
            final(self).prev_link() == old(self).prev_link(),
            final(self).call_site_spec() == old(self).call_site_spec(),
            old(self).inv() ==> final(self).inv(),
            old(self).inv() ==> (r matches FrameResult::Ready(v) ==> v == old(
                self,
            ).spec_computation().target()),
    {
        exchange(&mut self.result, FrameResult::Pending)
    }
}

impl<C, T> DynamicStackFrameBox<C, T> {
    /// The frame this handle owns.
    pub closed spec fn frame(self) -> DynamicStackFrame<C, T> {
        *self.value
    }

    /// Give up ownership of the heap allocation itself.
    pub(crate) fn into_inner(self) -> (r: Box<DynamicStackFrame<C, T>>)
        ensures
            *r == self.frame(),
    {
        self.value
    }

    /// Re-wrap a heap-allocated frame.
    pub(crate) fn from_inner(value: Box<DynamicStackFrame<C, T>>) -> (r: Self)
        ensures
            r.frame() == *value,
    {
        DynamicStackFrameBox { value }
    }

    /// Take the result out of the owned frame's slot, leaving it pending.
    pub fn take_result(&mut self) -> (r: FrameResult<T>)
        ensures
            r == old(self).frame().slot(),
            final(self).frame().slot() is Pending,
            final(self).frame().spec_computation() == old(self).frame().spec_computation(),
            final(self).frame().prev_link() == old(self).frame().prev_link(),
    {
        exchange(&mut self.value.result, FrameResult::Pending)
    }
}

impl<C: Computation<T>, T> DynamicStackFrame<C, T> {
    /// Resume the frame's computation once.
    ///
    /// If the slot already holds a completed value this is a no-op safety
    /// check reporting `Ready`. Otherwise the outstanding call site (if
    /// any) first consumes the delivered child value from the context,
    /// the computation is resumed, and a recursive call it makes becomes
    /// a push request in the context. The returned classification gives a
    /// push priority over everything else: a pushed child must run before
    /// its caller's outcome is looked at.
    pub fn stack_poll(&mut self, ctx: &mut RecursionContext<C, T>) -> (r: FrameState)
        requires
            old(self).inv(),
            old(ctx).spec_pushed() is None,
            old(self).slot() is Pending ==> match old(self).spec_computation().awaiting() {
                Some(v) => old(ctx).spec_child() == FrameResult::Ready(v),
                None => old(ctx).spec_child() is Pending,
            },
        ensures
            final(self).inv(),
            final(self).prev_link() == old(self).prev_link(),
            final(self).spec_computation().target() == old(self).spec_computation().target(),
            final(self).spec_computation().measure() <= old(self).spec_computation().measure(),
            old(self).slot() is Ready ==> r == FrameState::Ready && *final(self) == *old(self)
                && *final(ctx) == *old(ctx),
            (r == FrameState::NewFrameCreated) <==> (final(ctx).spec_pushed() is Some),
            final(ctx).spec_pushed() matches Some(fb) ==> {
                &&& fb.frame().inv()
                &&& fb.frame().slot() is Pending
                &&& fb.frame().prev_link() is None
                &&& fb.frame().spec_computation().wf()
                &&& fb.frame().spec_computation().awaiting() is None
                &&& final(self).spec_computation().awaiting() == Some(
                    fb.frame().spec_computation().target(),
                )
                &&& final(self).slot() is Pending
                &&& final(self).spec_computation().measure()
                    + fb.frame().spec_computation().measure() < old(
                    self,
                ).spec_computation().measure()
            },
            r == FrameState::AsyncYield ==> final(self).slot() is Pending
                && final(self).spec_computation().awaiting() is None,
            r == FrameState::Ready ==> final(self).slot() == FrameResult::Ready(
                final(self).spec_computation().target(),
            ),
    {
        if self.is_ready() {
            return FrameState::Ready;
        }
        // Let the outstanding call site consume the delivered child value.
        let mut delivered: Option<T> = None;
        match self.call_site.take() {
            None => {},
            Some(mut ub) => {
                proof {
                    ub.lemma_state_exclusive();
                }
                match ub.poll(ctx) {
                    FrameResult::Pending => {
                        // The child has not completed; keep waiting. (With a
                        // synchronous driver the delivered value is present
                        // whenever a call is outstanding, so this path is
                        // never reached; it is kept as the call site's
                        // honest behaviour on a pending slot.)
                        self.call_site = Some(ub);
                        return if ctx.has_pushed() {
                            FrameState::NewFrameCreated
                        } else {
                            FrameState::AsyncYield
                        };
                    },
                    FrameResult::Ready(v) => {
                        delivered = Some(v);
                    },
                }
            },
        }
        // Run the computation up to its next suspension point.
        match self.computation.resume(delivered) {
            Step::Yield => FrameState::AsyncYield,
            Step::Done(v) => {
                self.result = FrameResult::Ready(v);
                FrameState::Ready
            },
            Step::Call(child) => {
                let mut ub = UnrollBox::new(child);
                let _pushed = ub.poll(ctx);
                self.call_site = Some(ub);
                FrameState::NewFrameCreated
            },
        }
    }
}

/// Consistency of a whole chain of frames: every frame is internally
/// consistent, and every frame below the top is suspended (its slot
/// pending) waiting exactly for the value its successor will produce.
pub closed spec fn chain_inv_of<C: Computation<T>, T>(
    link: Option<Box<DynamicStackFrame<C, T>>>,
) -> bool
    decreases link,
{
    match link {
        None => true,
        Some(f) => {
            &&& f.inv()
            &&& chain_inv_of(f.prev)
            &&& match f.prev {
                None => true,
                Some(p) => p.result is Pending && p.computation.awaiting() == Some(
                    f.computation.target(),
                ),
            }
        },
    }
}

/// An empty chain is trivially consistent.
pub proof fn lemma_chain_inv_none<C: Computation<T>, T>()
    ensures
        chain_inv_of::<C, T>(None),
{
}

/// Unfold one link of the chain consistency predicate.
pub proof fn lemma_chain_inv_some<C: Computation<T>, T>(f: Box<DynamicStackFrame<C, T>>)
    ensures
        chain_inv_of(Some(f)) <==> {
            &&& f.inv()
            &&& chain_inv_of(f.prev_link())
            &&& match f.prev_link() {
                None => true,
                Some(p) => p.slot() is Pending && p.spec_computation().awaiting() == Some(
                    f.spec_computation().target(),
                ),
            }
        },
{
}

/// What chain consistency says of the chain's abstract content: only the
/// top frame can hold a completed value, every lower frame is suspended
/// waiting exactly for its successor's value (so frames can only complete
/// in reverse order of pushing), and a completed top value is the value
/// the top computation was to produce.
pub proof fn lemma_chain_inv_content<C: Computation<T>, T>(
    link: Option<Box<DynamicStackFrame<C, T>>>,
)
    requires
        chain_inv_of(link),
    ensures
        forall|i: int|
            0 <= i < chain_of(link).len() ==> (#[trigger] chain_of(link)[i]).0.wf(),
        forall|i: int|
            0 <= i < chain_of(link).len() - 1 ==> (#[trigger] chain_of(link)[i]).1 is Pending
                && chain_of(link)[i].0.awaiting() == Some(chain_of(link)[i + 1].0.target()),
        chain_of(link).len() > 0 ==> (chain_of(link).last().1 matches FrameResult::Ready(v) ==> v
            == chain_of(link).last().0.target()),
    decreases link,
{
    match link {
        None => {},
        Some(f) => {
            lemma_chain_inv_content(f.prev);
            let pre = chain_of(f.prev);
            let all = chain_of(Some(f));
            assert(all == pre.push((f.computation, f.result)));
            assert forall|i: int| 0 <= i < all.len() - 1 implies (#[trigger] all[i]).1 is Pending
                && all[i].0.awaiting() == Some(all[i + 1].0.target()) by {
                if i < pre.len() - 1 {
                    assert(all[i] == pre[i]);
                    assert(all[i + 1] == pre[i + 1]);
                } else {
                    match f.prev {
                        None => {},
                        Some(p) => {
                            assert(pre.last() == (p.computation, p.result));
                        },
                    }
                }
            }
        },
    }
}

/// Single-consumer result slots: one read consumes a completed value.
/// `f0` is a frame before a first read, which returns `r0` and leaves the
/// frame as `f1` with a pending slot (as `take_result` and
/// [`crate::stack::DynamicStack::get_result`] ensure); a second read,
/// returning `r1`, then finds the slot pending, until the frame is
/// resumed again.
pub proof fn lemma_single_resume_semantics<C, T>(
    f0: DynamicStackFrame<C, T>,
    r0: FrameResult<T>,
    f1: DynamicStackFrame<C, T>,
    r1: FrameResult<T>,
)
    requires
        r0 == f0.slot(),
        f1.slot() is Pending,
        r1 == f1.slot(),
    ensures
        r1 is Pending,
{
}

/// A frame's internal consistency does not depend on its caller link.
pub proof fn lemma_inv_ignores_link<C: Computation<T>, T>(
    a: DynamicStackFrame<C, T>,
    b: DynamicStackFrame<C, T>,
)
    requires
        a.spec_computation() == b.spec_computation(),
        a.slot() == b.slot(),
        a.call_site_spec() == b.call_site_spec(),
    ensures
        a.inv() == b.inv(),
{
}

/// The chain below an absent link is empty.
pub proof fn lemma_chain_none<C, T>()
    ensures
        chain_of::<C, T>(None) == Seq::<(C, FrameResult<T>)>::empty(),
{
}

/// Unfold one link of a chain.
pub proof fn lemma_chain_some<C, T>(f: Box<DynamicStackFrame<C, T>>)
    ensures
        chain_of(Some(f)) == chain_of(f.prev_link()).push((f.spec_computation(), f.slot())),
        chain_of(Some(f)).len() == chain_of(f.prev_link()).len() + 1,
{
}

/// The bottom of a chain is the bottom of its prefix.
pub proof fn lemma_chain_first<C, T>(f: Box<DynamicStackFrame<C, T>>)
    ensures
        chain_of(f.prev_link()).len() > 0 ==> chain_of(Some(f))[0] == chain_of(f.prev_link())[0],
        chain_of(f.prev_link()).len() == 0 ==> chain_of(Some(f))[0] == (
            f.spec_computation(),
            f.slot(),
        ),
{
}

} // verus!
