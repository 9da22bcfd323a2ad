//! The Fibonacci series, starting from a pair of ones.

use vstd::prelude::*;

verus! {

/// The Fibonacci number at position `n`, counting one, one, two, three …
pub open spec fn spec_fib(n: nat) -> nat
    decreases n,
{
    if n == 0 {
        1
    } else if n == 1 {
        1
    } else {
        spec_fib((n - 1) as nat) + spec_fib((n - 2) as nat)
    }
}

/// The series never falls from one position to the next.
pub proof fn lemma_fib_monotonic(i: nat, j: nat)
    requires
        i <= j,
    ensures
        spec_fib(i) <= spec_fib(j),
    decreases j - i,
{
    if i < j {
        lemma_fib_monotonic(i, (j - 1) as nat);
        if j >= 2 {
            assert(spec_fib(j) == spec_fib((j - 1) as nat) + spec_fib((j - 2) as nat));
        }
    }
}

/// The first `n` Fibonacci numbers, in order.
#[verifier::loop_isolation(false)]
pub fn fibonacci_series(n: usize) -> (r: Vec<u64>)
    requires
        spec_fib(n as nat) <= u64::MAX,
    ensures
        r@.len() == n,
        forall|i: int| 0 <= i < n ==> r@[i] == spec_fib(i as nat),
{
    let mut r: Vec<u64> = Vec::new();
    let mut prev_value: u64 = 1;
    let mut value: u64 = 1;
    let mut i: usize = 0;
    while i < n
        invariant
            i <= n,
            r@.len() == i,
            forall|k: int| 0 <= k < i ==> r@[k] == spec_fib(k as nat),
            prev_value == spec_fib(i as nat),
            i < n ==> value == spec_fib((i + 1) as nat),
        decreases n - i,
    {
        r.push(prev_value);
        let next_value = if i + 1 < n {
            proof {
                lemma_fib_monotonic((i + 2) as nat, n as nat);
                assert(spec_fib((i + 2) as nat)
                    == spec_fib((i + 1) as nat) + spec_fib(i as nat));
            }
            value + prev_value
        } else {
            value
        };
        prev_value = value;
        value = next_value;
        i = i + 1;
    }
    r
}

} // verus!
