//! Fibonacci numbers.
use vstd::prelude::*;

verus! {

/// The n-th Fibonacci number: 0, 1, 1, 2, 3, 5, ...
pub open spec fn fib(n: nat) -> nat
    decreases n,
{
    if n == 0 {
        0
    } else if n == 1 {
        1
    } else {
        fib((n - 2) as nat) + fib((n - 1) as nat)
    }
}

/// Fibonacci numbers never decrease.
pub proof fn lemma_fib_monotonic(i: nat, j: nat)
    requires
        i <= j,
    ensures
        fib(i) <= fib(j),
    decreases j - i,
{
    if j < 2 || i == j {
    } else if i == j - 1 {
        assert(fib(j) == fib((j - 2) as nat) + fib((j - 1) as nat));
    } else {
        lemma_fib_monotonic(i, (j - 1) as nat);
        lemma_fib_monotonic(i, (j - 2) as nat);
    }
}

/// Recursive Fibonacci implementation
/// This is not efficient for large numbers due to repeated calculations
pub fn fibonacci_recursive(n: u32) -> (res: u64)
    requires
        fib(n as nat) <= u64::MAX,
    ensures
        res == fib(n as nat),
    decreases n,
{
    match n {
        0 => 0,
        1 => 1,
        _ => {
            proof {
                lemma_fib_monotonic((n - 1) as nat, n as nat);
                lemma_fib_monotonic((n - 2) as nat, n as nat);
            }
            fibonacci_recursive(n - 1) + fibonacci_recursive(n - 2)
        },
    }
}

/// Iterative Fibonacci implementation
/// More efficient than recursive version
pub fn fibonacci_iterative(n: u32) -> (res: u64)
    requires
        fib(n as nat) <= u64::MAX,
    ensures
        res == fib(n as nat),
{
    if n == 0 {
        return 0;
    }
    let mut a: u64 = 0;
    let mut b: u64 = 1;
    let mut i: u32 = 1;
    while i < n
        invariant
            1 <= i <= n,
            fib(n as nat) <= u64::MAX,
            a == fib((i - 1) as nat),
            b == fib(i as nat),
        decreases n - i,
    {
        proof {
            lemma_fib_monotonic((i + 1) as nat, n as nat);
        }
        let temp = a + b;
        a = b;
        b = temp;
        i = i + 1;
    }
    b
}

} // verus!
