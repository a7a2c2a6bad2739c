//! The Fibonacci example: ordinary recursion, the baseline the suspension
//! machinery is measured against.

use vstd::prelude::*;

verus! {

/// The Fibonacci number at `n`, counting from `fib_spec(0) == 1`.
pub open spec fn fib_spec(n: nat) -> nat
    decreases n,
{
    if n <= 1 {
        1
    } else {
        fib_spec((n - 1) as nat) + fib_spec((n - 2) as nat)
    }
}

/// Fibonacci numbers never shrink as the index grows.
proof fn lemma_fib_mono(i: nat, j: nat)
    requires
        i <= j,
    ensures
        fib_spec(i) <= fib_spec(j),
    decreases j,
{
    if i < j && j >= 2 {
        lemma_fib_mono(i, (j - 1) as nat);
    }
}

/// The Fibonacci number at `n`.
pub fn fib(n: u32) -> (r: u32)
    requires
        fib_spec(n as nat) <= u32::MAX,
    ensures
        r == fib_spec(n as nat),
    decreases n,
{
    if n <= 1 {
        1
    } else {
        proof {
            lemma_fib_mono((n - 1) as nat, n as nat);
            lemma_fib_mono((n - 2) as nat, n as nat);
        }
        let a = fib(n - 1);
        let b = fib(n - 2);
        a + b
    }
}

} // verus!
