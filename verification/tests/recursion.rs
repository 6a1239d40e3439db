use heap_recursion::computations::Ackermann;
use heap_recursion::computations::Countdown;
use heap_recursion::computations::Fibonacci;
use heap_recursion::frame::Computation;
use heap_recursion::frame::FrameResult;
use heap_recursion::HeapRecursive;

fn drive<C: Computation<T>, T>(mut driver: HeapRecursive<C, T>) -> T {
    loop {
        match driver.poll() {
            FrameResult::Ready(v) => return v,
            FrameResult::Pending => {}
        }
    }
}

#[test]
pub fn test_fibonacci() {
    let result = drive(HeapRecursive::wrap(Fibonacci::Start { n: 30 }));
    assert_eq!(result, 832040);
}

#[test]
pub fn test_ackermann() {
    let result = drive(HeapRecursive::wrap(Ackermann::Start { m: 3, n: 8 }));
    assert_eq!(result, 2045);
}

#[test]
fn test_fibonacci_base_cases() {
    assert_eq!(drive(HeapRecursive::wrap(Fibonacci::Start { n: 0 })), 0);
    assert_eq!(drive(HeapRecursive::wrap(Fibonacci::Start { n: 1 })), 1);
    assert_eq!(drive(HeapRecursive::wrap(Fibonacci::Start { n: 10 })), 55);
}

#[test]
fn test_ackermann_small_values() {
    assert_eq!(drive(HeapRecursive::wrap(Ackermann::Start { m: 0, n: 4 })), 5);
    assert_eq!(drive(HeapRecursive::wrap(Ackermann::Start { m: 1, n: 5 })), 7);
    assert_eq!(drive(HeapRecursive::wrap(Ackermann::Start { m: 2, n: 3 })), 9);
}

#[test]
fn test_countdown_suspends_once_then_completes() {
    // The innermost activation suspends on an external event at logical
    // depth 10; the driver must report exactly one Pending, from the
    // innermost frame straight to the caller, and then the value.
    let mut driver = HeapRecursive::wrap(Countdown::Start { n: 10 });
    assert!(matches!(driver.poll(), FrameResult::Pending));
    match driver.poll() {
        FrameResult::Ready(v) => assert_eq!(v, 10),
        FrameResult::Pending => panic!("second resumption must complete"),
    }
}

#[test]
fn test_deep_recursion_depth_independence() {
    // Logical depth 100_000: the frames live on the heap, and the
    // trampoline and the suspension propagation walk them iteratively,
    // so the native call stack stays shallow.
    let mut driver = HeapRecursive::wrap(Countdown::Start { n: 100_000 });
    assert!(matches!(driver.poll(), FrameResult::Pending));
    match driver.poll() {
        FrameResult::Ready(v) => assert_eq!(v, 100_000),
        FrameResult::Pending => panic!("second resumption must complete"),
    }
}

#[test]
fn test_teardown_mid_computation() {
    // Discard the driver while 100_001 frames are still suspended: the
    // stack must release them iteratively, not through nested destructors.
    let mut driver = HeapRecursive::wrap(Countdown::Start { n: 100_000 });
    assert!(matches!(driver.poll(), FrameResult::Pending));
    drop(driver);
}
