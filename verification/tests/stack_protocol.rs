use heap_recursion::computations::Countdown;
use heap_recursion::computations::Fibonacci;
use heap_recursion::frame::DynamicStackFrame;
use heap_recursion::frame::FrameResult;
use heap_recursion::frame::FrameState;
use heap_recursion::stack::DynamicStack;

#[test]
fn test_single_resume_semantics() {
    // A completed value is read out of a result slot at most once: the
    // second read finds the slot pending again.
    let mut stack: DynamicStack<Countdown, u64> = DynamicStack::new();
    let handle = stack.push_frame(DynamicStackFrame::new(Countdown::Start { n: 0 }));
    assert_eq!(stack.stack_poll_top(), FrameState::AsyncYield);
    assert_eq!(stack.stack_poll_top(), FrameState::Ready);
    match stack.get_result(handle) {
        FrameResult::Ready(v) => assert_eq!(v, 0),
        FrameResult::Pending => panic!("the completed value must be delivered once"),
    }
    assert!(matches!(stack.get_result(handle), FrameResult::Pending));
    let _ = stack.pop_frame();
    assert!(stack.is_empty());
}

#[test]
fn test_lifo_frame_order() {
    // fib(2) pushes fib(1), consumes it, pushes fib(0), consumes it, and
    // only then completes: children always complete before their caller,
    // in reverse order of pushing.
    let mut stack: DynamicStack<Fibonacci, u32> = DynamicStack::new();
    let _root = stack.push_frame(DynamicStackFrame::new(Fibonacci::Start { n: 2 }));
    assert_eq!(stack.stack_poll_top(), FrameState::NewFrameCreated);
    assert!(!stack.has_single_frame());
    assert_eq!(stack.stack_poll_top(), FrameState::Ready);
    assert_eq!(stack.stack_poll_prev(), FrameState::NewFrameCreated);
    assert!(!stack.has_single_frame());
    assert_eq!(stack.stack_poll_top(), FrameState::Ready);
    assert_eq!(stack.stack_poll_prev(), FrameState::Ready);
    assert!(stack.has_single_frame());
    let mut frame = stack.pop_frame();
    match frame.take_result() {
        FrameResult::Ready(v) => assert_eq!(v, 1),
        FrameResult::Pending => panic!("the outermost frame has completed"),
    }
    assert!(stack.is_empty());
}

#[test]
fn test_finished_frame_resume_is_noop() {
    // Resuming a frame whose slot already holds a completed value is a
    // safety no-op reporting Ready, leaving the value in place.
    let mut stack: DynamicStack<Countdown, u64> = DynamicStack::new();
    let handle = stack.push_frame(DynamicStackFrame::new(Countdown::Start { n: 0 }));
    assert_eq!(stack.stack_poll_top(), FrameState::AsyncYield);
    assert_eq!(stack.stack_poll_top(), FrameState::Ready);
    assert_eq!(stack.stack_poll_top(), FrameState::Ready);
    assert!(matches!(stack.get_result(handle), FrameResult::Ready(0)));
}

#[test]
fn test_growth_flag_cleared_between_resumptions() {
    // The growth flag reflects only pushes of the most recent resumption:
    // it is consumed by the classification, so it reads clear afterwards,
    // and raising it by hand is observable until the next read.
    let mut stack: DynamicStack<Countdown, u64> = DynamicStack::new();
    let _root = stack.push_frame(DynamicStackFrame::new(Countdown::Start { n: 1 }));
    assert_eq!(stack.stack_poll_top(), FrameState::NewFrameCreated);
    assert!(!stack.clear_flag());
    stack.set_flag();
    assert!(stack.clear_flag());
    assert!(!stack.clear_flag());
}

#[test]
fn test_release_frames_empties_stack() {
    let mut stack: DynamicStack<Countdown, u64> = DynamicStack::new();
    let _root = stack.push_frame(DynamicStackFrame::new(Countdown::Start { n: 50 }));
    assert_eq!(stack.stack_poll_top(), FrameState::NewFrameCreated);
    assert_eq!(stack.stack_poll_top(), FrameState::NewFrameCreated);
    assert!(!stack.is_empty());
    stack.release_frames();
    assert!(stack.is_empty());
}
