//! Fibonacci numbers, and the deliberately slow function that computes them.

use vstd::prelude::*;
use crate::decimal::{add_numerals, decimal, lemma_decimal_value, to_decimal};

verus! {

/// The Fibonacci numbers: `fib(0) = 0`, `fib(1) = 1`, and from there on each
/// is the sum of the two before it.
pub open spec fn fib(n: nat) -> nat
    decreases n,
{
    if n == 0 {
        0
    } else if n == 1 {
        1
    } else {
        fib((n - 1) as nat) + fib((n - 2) as nat)
    }
}

/// The largest index whose Fibonacci number fits in 32 bits.
pub const MAX_INDEX: u32 = 47;

/// Whether the Fibonacci number at `n` fits in 32 bits.
pub open spec fn representable(n: nat) -> bool {
    fib(n) <= u32::MAX
}

/// The Fibonacci numbers never decrease.
pub proof fn lemma_fib_monotonic(i: nat, j: nat)
    requires
        i <= j,
    ensures
        fib(i) <= fib(j),
    decreases j,
{
    if i < j {
        if j >= 2 {
            lemma_fib_monotonic(i, (j - 1) as nat);
        }
    }
}

/// The two values on either side of the 32-bit limit.
pub proof fn lemma_fib_at_limit()
    ensures
        fib(47) == 2971215073,
        fib(48) == 4807526976,
{
    reveal_with_fuel(fib, 3);
    assert(fib(2) == 1);
    assert(fib(4) == 3);
    assert(fib(6) == 8);
    assert(fib(8) == 21);
    assert(fib(10) == 55);
    assert(fib(12) == 144);
    assert(fib(14) == 377);
    assert(fib(16) == 987);
    assert(fib(18) == 2584);
    assert(fib(20) == 6765);
    assert(fib(22) == 17711);
    assert(fib(24) == 46368);
    assert(fib(26) == 121393);
    assert(fib(28) == 317811);
    assert(fib(30) == 832040);
    assert(fib(32) == 2178309);
    assert(fib(34) == 5702887);
    assert(fib(36) == 14930352);
    assert(fib(38) == 39088169);
    assert(fib(40) == 102334155);
    assert(fib(42) == 267914296);
    assert(fib(44) == 701408733);
    assert(fib(46) == 1836311903);
}

/// The Fibonacci number at `n` fits in 32 bits exactly when `n` is at most
/// [`MAX_INDEX`].
pub proof fn lemma_representable(n: nat)
    ensures
        representable(n) <==> n <= MAX_INDEX,
{
    lemma_fib_at_limit();
    if n <= 47 {
        lemma_fib_monotonic(n, 47);
    } else {
        lemma_fib_monotonic(48, n);
    }
}

/// Computes the Fibonacci number at `n` by plain double recursion. The running
/// time grows exponentially with `n`: that cost is what the function is for.
pub fn fibonacci(n: u32) -> (r: u32)
    requires
        representable(n as nat),
    ensures
        r == fib(n as nat),
    decreases n,
{
    if n == 0 {
        0
    } else if n == 1 {
        1
    } else {
        proof {
            lemma_fib_monotonic((n - 1) as nat, n as nat);
            lemma_fib_monotonic((n - 2) as nat, n as nat);
        }
        fibonacci(n - 1) + fibonacci(n - 2)
    }
}

/// Computes the decimal numeral of the Fibonacci number at `n`, whatever
/// its size, by the same double recursion: a number that fits in 32 bits is
/// computed by `fibonacci` and written out, a larger one is the sum of the
/// numerals of the two before it. The recursion is as deep as `n` is large.
pub fn fibonacci_numeral(n: u32) -> (numeral: Vec<u8>)
    ensures
        numeral@ == decimal(fib(n as nat)),
    decreases n,
{
    proof {
        lemma_representable(n as nat);
    }
    if n <= MAX_INDEX {
        to_decimal(fibonacci(n))
    } else {
        let a = fibonacci_numeral(n - 1);
        let b = fibonacci_numeral(n - 2);
        proof {
            lemma_decimal_value(fib((n - 1) as nat));
            lemma_decimal_value(fib((n - 2) as nat));
        }
        add_numerals(a.as_slice(), b.as_slice())
    }
}

} // verus!
