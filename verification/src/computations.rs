//! Recursive computations expressed as resumable state machines, proved
//! to produce exactly the value of the corresponding mathematical
//! recurrence when driven by [`crate::HeapRecursive`].

use vstd::prelude::*;

use crate::frame::Computation;
use crate::frame::Step;

verus! {

/// The Fibonacci recurrence.
pub open spec fn spec_fib(n: nat) -> nat
    decreases n,
{
    if n <= 1 {
        n
    } else {
        spec_fib((n - 1) as nat) + spec_fib((n - 2) as nat)
    }
}

/// Every Fibonacci number reached from `n` downwards fits in a `u32`.
pub open spec fn fib_fits(n: nat) -> bool
    decreases n,
{
    if n <= 1 {
        true
    } else {
        fib_fits((n - 1) as nat) && fib_fits((n - 2) as nat) && spec_fib(n) <= u32::MAX
    }
}

/// An upper bound on the resumptions needed to compute `spec_fib(n)`.
pub open spec fn fib_work(n: nat) -> nat
    decreases n,
{
    if n <= 1 {
        1
    } else {
        fib_work((n - 1) as nat) + fib_work((n - 2) as nat) + 3
    }
}

/// A suspended activation of the naive recursive Fibonacci function:
/// `fib(n) = fib(n - 1) + fib(n - 2)`, both summands computed by
/// recursive calls through the driving stack.
pub enum Fibonacci {
    /// About to run for argument `n`.
    Start { n: u32 },
    /// Waiting for `fib(n - 1)`.
    AwaitFirst { n: u32 },
    /// Waiting for `fib(n - 2)`.
    AwaitSecond { n: u32, first: u32 },
    /// Completed with `value`.
    Done { value: u32 },
}

impl Computation<u32> for Fibonacci {
    open spec fn wf(self) -> bool {
        match self {
            Fibonacci::Start { n } => fib_fits(n as nat),
            Fibonacci::AwaitFirst { n } => n >= 2 && fib_fits(n as nat),
            Fibonacci::AwaitSecond { n, first } => n >= 2 && fib_fits(n as nat) && first
                == spec_fib((n - 1) as nat),
            Fibonacci::Done { .. } => true,
        }
    }

    open spec fn target(self) -> u32 {
        match self {
            Fibonacci::Start { n } => spec_fib(n as nat) as u32,
            Fibonacci::AwaitFirst { n } => spec_fib(n as nat) as u32,
            Fibonacci::AwaitSecond { n, .. } => spec_fib(n as nat) as u32,
            Fibonacci::Done { value } => value,
        }
    }

    open spec fn awaiting(self) -> Option<u32> {
        match self {
            Fibonacci::AwaitFirst { n } => Some(spec_fib((n - 1) as nat) as u32),
            Fibonacci::AwaitSecond { n, .. } => Some(spec_fib((n - 2) as nat) as u32),
            _ => None,
        }
    }

    open spec fn measure(self) -> nat {
        match self {
            Fibonacci::Start { n } => fib_work(n as nat),
            Fibonacci::AwaitFirst { n } => fib_work((n - 2) as nat) + 2,
            Fibonacci::AwaitSecond { .. } => 1,
            Fibonacci::Done { .. } => 0,
        }
    }

    fn resume(&mut self, delivered: Option<u32>) -> (s: Step<Fibonacci, u32>) {
        let cur = crate::frame::exchange(self, Fibonacci::Done { value: 0 });
        match cur {
            Fibonacci::Start { n } => {
                if n <= 1 {
                    *self = Fibonacci::Done { value: n };
                    Step::Done(n)
                } else {
                    *self = Fibonacci::AwaitFirst { n };
                    Step::Call(Fibonacci::Start { n: n - 1 })
                }
            },
            Fibonacci::AwaitFirst { n } => {
                match delivered {
                    Some(first) => {
                        *self = Fibonacci::AwaitSecond { n, first };
                        Step::Call(Fibonacci::Start { n: n - 2 })
                    },
                    None => {
                        *self = Fibonacci::AwaitFirst { n };
                        Step::Yield
                    },
                }
            },
            Fibonacci::AwaitSecond { n, first } => {
                match delivered {
                    Some(second) => {
                        let value = first + second;
                        *self = Fibonacci::Done { value };
                        Step::Done(value)
                    },
                    None => {
                        *self = Fibonacci::AwaitSecond { n, first };
                        Step::Yield
                    },
                }
            },
            Fibonacci::Done { value } => {
                *self = Fibonacci::Done { value };
                Step::Yield
            },
        }
    }
}

/// The Ackermann function.
pub open spec fn spec_ack(m: nat, n: nat) -> nat
    decreases m, n,
{
    if m == 0 {
        n + 1
    } else if n == 0 {
        spec_ack((m - 1) as nat, 1)
    } else {
        spec_ack((m - 1) as nat, spec_ack(m, (n - 1) as nat))
    }
}

/// Every Ackermann value reached from `(m, n)` fits in a `u64`.
pub open spec fn ack_fits(m: nat, n: nat) -> bool
    decreases m, n,
{
    if m == 0 {
        n + 1 <= u64::MAX
    } else if n == 0 {
        ack_fits((m - 1) as nat, 1)
    } else {
        ack_fits(m, (n - 1) as nat) && ack_fits((m - 1) as nat, spec_ack(m, (n - 1) as nat))
    }
}

/// An upper bound on the resumptions needed to compute `spec_ack(m, n)`.
pub open spec fn ack_work(m: nat, n: nat) -> nat
    decreases m, n,
{
    if m == 0 {
        1
    } else if n == 0 {
        ack_work((m - 1) as nat, 1) + 2
    } else {
        ack_work(m, (n - 1) as nat) + ack_work((m - 1) as nat, spec_ack(m, (n - 1) as nat)) + 3
    }
}

/// If the whole evaluation of `spec_ack(m, n)` fits, its value fits.
pub proof fn lemma_ack_fits_bound(m: nat, n: nat)
    requires
        ack_fits(m, n),
    ensures
        spec_ack(m, n) <= u64::MAX,
    decreases m, n,
{
    if m == 0 {
    } else if n == 0 {
        lemma_ack_fits_bound((m - 1) as nat, 1);
    } else {
        lemma_ack_fits_bound((m - 1) as nat, spec_ack(m, (n - 1) as nat));
    }
}

/// A suspended activation of the two-argument Ackermann function, each
/// recursive application routed through the driving stack.
pub enum Ackermann {
    /// About to run for arguments `(m, n)`.
    Start { m: u64, n: u64 },
    /// `n` was zero: waiting for `ack(m - 1, 1)`, which is the answer.
    AwaitBase { m: u64 },
    /// Waiting for the inner application `ack(m, n - 1)`.
    AwaitInner { m: u64, n: u64 },
    /// Waiting for the outer application `ack(m - 1, ack(m, n - 1))`.
    AwaitOuter { m: u64, n: u64 },
    /// Completed with `value`.
    Done { value: u64 },
}

impl Computation<u64> for Ackermann {
    open spec fn wf(self) -> bool {
        match self {
            Ackermann::Start { m, n } => ack_fits(m as nat, n as nat),
            Ackermann::AwaitBase { m } => m >= 1 && spec_ack(m as nat, 0) <= u64::MAX,
            Ackermann::AwaitInner { m, n } => m >= 1 && n >= 1 && ack_fits(
                (m - 1) as nat,
                spec_ack(m as nat, (n - 1) as nat),
            ) && spec_ack(m as nat, (n - 1) as nat) <= u64::MAX,
            Ackermann::AwaitOuter { m, n } => m >= 1 && n >= 1 && spec_ack(m as nat, n as nat)
                <= u64::MAX,
            Ackermann::Done { .. } => true,
        }
    }

    open spec fn target(self) -> u64 {
        match self {
            Ackermann::Start { m, n } => spec_ack(m as nat, n as nat) as u64,
            Ackermann::AwaitBase { m } => spec_ack(m as nat, 0) as u64,
            Ackermann::AwaitInner { m, n } => spec_ack(m as nat, n as nat) as u64,
            Ackermann::AwaitOuter { m, n } => spec_ack(m as nat, n as nat) as u64,
            Ackermann::Done { value } => value,
        }
    }

    open spec fn awaiting(self) -> Option<u64> {
        match self {
            Ackermann::AwaitBase { m } => Some(spec_ack((m - 1) as nat, 1) as u64),
            Ackermann::AwaitInner { m, n } => Some(spec_ack(m as nat, (n - 1) as nat) as u64),
            Ackermann::AwaitOuter { m, n } => Some(spec_ack(m as nat, n as nat) as u64),
            _ => None,
        }
    }

    open spec fn measure(self) -> nat {
        match self {
            Ackermann::Start { m, n } => ack_work(m as nat, n as nat),
            Ackermann::AwaitBase { .. } => 1,
            Ackermann::AwaitInner { m, n } => ack_work(
                (m - 1) as nat,
                spec_ack(m as nat, (n - 1) as nat),
            ) + 2,
            Ackermann::AwaitOuter { .. } => 1,
            Ackermann::Done { .. } => 0,
        }
    }

    fn resume(&mut self, delivered: Option<u64>) -> (s: Step<Ackermann, u64>) {
        let cur = crate::frame::exchange(self, Ackermann::Done { value: 0 });
        match cur {
            Ackermann::Start { m, n } => {
                if m == 0 {
                    *self = Ackermann::Done { value: n + 1 };
                    Step::Done(n + 1)
                } else if n == 0 {
                    proof {
                        lemma_ack_fits_bound((m - 1) as nat, 1);
                    }
                    *self = Ackermann::AwaitBase { m };
                    Step::Call(Ackermann::Start { m: m - 1, n: 1 })
                } else {
                    proof {
                        lemma_ack_fits_bound(m as nat, (n - 1) as nat);
                    }
                    *self = Ackermann::AwaitInner { m, n };
                    Step::Call(Ackermann::Start { m, n: n - 1 })
                }
            },
            Ackermann::AwaitBase { m } => {
                match delivered {
                    Some(value) => {
                        *self = Ackermann::Done { value };
                        Step::Done(value)
                    },
                    None => {
                        *self = Ackermann::AwaitBase { m };
                        Step::Yield
                    },
                }
            },
            Ackermann::AwaitInner { m, n } => {
                match delivered {
                    Some(inner) => {
                        proof {
                            lemma_ack_fits_bound((m - 1) as nat, inner as nat);
                        }
                        *self = Ackermann::AwaitOuter { m, n };
                        Step::Call(Ackermann::Start { m: m - 1, n: inner })
                    },
                    None => {
                        *self = Ackermann::AwaitInner { m, n };
                        Step::Yield
                    },
                }
            },
            Ackermann::AwaitOuter { m, n } => {
                match delivered {
                    Some(value) => {
                        *self = Ackermann::Done { value };
                        Step::Done(value)
                    },
                    None => {
                        *self = Ackermann::AwaitOuter { m, n };
                        Step::Yield
                    },
                }
            },
            Ackermann::Done { value } => {
                *self = Ackermann::Done { value };
                Step::Yield
            },
        }
    }
}

/// A linear recursion of depth `n` that also exercises a genuine external
/// suspension: `count(0)` suspends once, then completes with `0`;
/// `count(n)` is `count(n - 1) + 1`. Its value is `n`, reached only after
/// one `Pending` has propagated up from the innermost frame.
pub enum Countdown {
    /// About to run for argument `n`.
    Start { n: u64 },
    /// Waiting for `count(n - 1)`.
    Await { n: u64 },
    /// The innermost activation has suspended once and will complete next.
    Parked,
    /// Completed with `value`.
    Done { value: u64 },
}

impl Computation<u64> for Countdown {
    open spec fn wf(self) -> bool {
        match self {
            Countdown::Await { n } => n >= 1,
            _ => true,
        }
    }

    open spec fn target(self) -> u64 {
        match self {
            Countdown::Start { n } => n,
            Countdown::Await { n } => n,
            Countdown::Parked => 0,
            Countdown::Done { value } => value,
        }
    }

    open spec fn awaiting(self) -> Option<u64> {
        match self {
            Countdown::Await { n } => Some((n - 1) as u64),
            _ => None,
        }
    }

    open spec fn measure(self) -> nat {
        match self {
            Countdown::Start { n } => 2 * (n as nat) + 2,
            Countdown::Await { .. } => 1,
            Countdown::Parked => 1,
            Countdown::Done { .. } => 0,
        }
    }

    fn resume(&mut self, delivered: Option<u64>) -> (s: Step<Countdown, u64>) {
        let cur = crate::frame::exchange(self, Countdown::Done { value: 0 });
        match cur {
            Countdown::Start { n } => {
                if n == 0 {
                    *self = Countdown::Parked;
                    Step::Yield
                } else {
                    *self = Countdown::Await { n };
                    Step::Call(Countdown::Start { n: n - 1 })
                }
            },
            Countdown::Await { n } => {
                match delivered {
                    Some(below) => {
                        let value = below + 1;
                        *self = Countdown::Done { value };
                        Step::Done(value)
                    },
                    None => {
                        *self = Countdown::Await { n };
                        Step::Yield
                    },
                }
            },
            Countdown::Parked => {
                *self = Countdown::Done { value: 0 };
                Step::Done(0)
            },
            Countdown::Done { value } => {
                *self = Countdown::Done { value };
                Step::Yield
            },
        }
    }
}

/// Recursion equivalence for Fibonacci: a fresh activation denotes the
/// recurrence itself, so by the contracts of [`crate::HeapRecursive`]'s
/// `wrap` and `poll`, driving it through the heap-resident stack can only
/// ever complete with `spec_fib(n)` — the same value naive native
/// recursion computes.
pub proof fn lemma_fibonacci_equivalence(n: u32)
    requires
        fib_fits(n as nat),
    ensures
        (Fibonacci::Start { n }).wf(),
        (Fibonacci::Start { n }).awaiting() is None,
        (Fibonacci::Start { n }).target() == spec_fib(n as nat),
{
    assert(spec_fib(n as nat) <= u32::MAX) by {
        if n <= 1 {
            assert(spec_fib(n as nat) == n);
        }
    }
}

/// Recursion equivalence for Ackermann: a fresh activation denotes
/// `spec_ack(m, n)`, so a driver wrapped around it can only complete with
/// that value.
pub proof fn lemma_ackermann_equivalence(m: u64, n: u64)
    requires
        ack_fits(m as nat, n as nat),
    ensures
        (Ackermann::Start { m, n }).wf(),
        (Ackermann::Start { m, n }).awaiting() is None,
        (Ackermann::Start { m, n }).target() == spec_ack(m as nat, n as nat),
{
    lemma_ack_fits_bound(m as nat, n as nat);
}

} // verus!
