//! The Fibonacci-style sequence computed by the warm-up program.
//!
//! The sequence is shifted by one place against the textbook numbering:
//! both `fib(0)` and `fib(1)` are 0, and `fib(2)` is 1.

use vstd::prelude::*;

verus! {

/// The value the program computes for `n`, as a mathematical function.
pub open spec fn spec_fib(n: nat) -> nat
    decreases n,
{
    if n == 0 {
        0
    } else if n == 1 {
        0
    } else if n == 2 {
        1
    } else {
        spec_fib((n - 1) as nat) + spec_fib((n - 2) as nat)
    }
}

/// Computes the sequence by direct recursion, exactly as the program does.
pub fn fib(n: u128) -> (r: u128)
    requires
        spec_fib(n as nat) <= u128::MAX,
    ensures
        r == spec_fib(n as nat),
    decreases n,
{
    match n {
        0 => 0,
        1 => 0,
        2 => 1,
        _ => {
            proof {
                lemma_fib_monotonic((n - 2) as nat, (n - 1) as nat);
                lemma_fib_monotonic((n - 1) as nat, n as nat);
            }
            fib(n - 1) + fib(n - 2)
        },
    }
}

/// The sequence never decreases, so each summand fits whenever the sum does.
proof fn lemma_fib_monotonic(i: nat, j: nat)
    requires
        i <= j,
    ensures
        spec_fib(i) <= spec_fib(j),
    decreases j,
{
    if j > 2 && i < j {
        lemma_fib_monotonic(i, (j - 1) as nat);
    }
}

} // verus!
