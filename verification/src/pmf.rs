//! Small combinatorial helpers for offline probability work.

use vstd::prelude::*;

verus! {

/// `n` factorial.
pub open spec fn spec_factorial(n: nat) -> nat
    decreases n,
{
    if n == 0 {
        1
    } else {
        n * spec_factorial((n - 1) as nat)
    }
}

/// `n` factorial; the result must fit 32 bits, which holds up to
/// twelve.
pub fn factorial(n: u32) -> (r: u32)
    requires
        n <= 12,
    ensures
        r == spec_factorial(n as nat),
{
    let mut acc: u32 = 1;
    let mut i: u32 = 0;
    proof {
        lemma_factorial_bound(n as nat);
    }
    while i < n
        invariant
            n <= 12,
            i <= n,
            acc == spec_factorial(i as nat),
            spec_factorial(n as nat) <= 479001600,
        decreases n - i,
    {
        proof {
            lemma_factorial_monotone(i as nat + 1, n as nat);
            assert(spec_factorial((i + 1) as nat) == (i + 1) * spec_factorial(i as nat));
            assert(acc * (i + 1) == (i + 1) * spec_factorial(i as nat)) by (nonlinear_arith)
                requires
                    acc == spec_factorial(i as nat),
            ;
        }
        acc = acc * (i + 1);
        i = i + 1;
    }
    acc
}

/// Factorial grows monotonically.
proof fn lemma_factorial_monotone(a: nat, b: nat)
    requires
        a <= b,
    ensures
        spec_factorial(a) <= spec_factorial(b),
    decreases b,
{
    if a < b {
        lemma_factorial_monotone(a, (b - 1) as nat);
        assert(spec_factorial(b) == b * spec_factorial((b - 1) as nat));
        assert(spec_factorial((b - 1) as nat) <= b * spec_factorial((b - 1) as nat))
            by (nonlinear_arith)
            requires
                b >= 1,
                spec_factorial((b - 1) as nat) >= 0,
        ;
    }
}

/// Twelve factorial still fits 32 bits.
proof fn lemma_factorial_bound(n: nat)
    requires
        n <= 12,
    ensures
        spec_factorial(n) <= 479001600,
{
    lemma_factorial_monotone(n, 12);
    reveal_with_fuel(spec_factorial, 14);
    assert(spec_factorial(12) == 479001600);
}

} // verus!
