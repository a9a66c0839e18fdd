//! The Fibonacci numbers, as a recursive function proved against its
//! mathematical definition and free of overflow.

use vstd::prelude::*;

verus! {

/// The mathematical Fibonacci sequence.
pub open spec fn fib(n: nat) -> nat
    decreases n,
{
    if n == 0 {
        0
    } else if n == 1 {
        1
    } else {
        fib((n - 1) as nat) + fib((n - 2) as nat)
    }
}

/// The Fibonacci sequence never decreases.
pub proof fn lemma_fib_monotonic(i: nat, j: nat)
    requires
        i <= j,
    ensures
        fib(i) <= fib(j),
    decreases j,
{
    if i < j {
        if j == 1 {
            assert(fib(0) == 0 && fib(1) == 1);
        } else {
            lemma_fib_monotonic(i, (j - 1) as nat);
            assert(fib(j) == fib((j - 1) as nat) + fib((j - 2) as nat));
        }
    }
}

/// The largest Fibonacci number that fits in a `u32`.
pub proof fn lemma_fib_47()
    ensures
        fib(47) == 2971215073,
{
    assert(fib(0) == 0);
    assert(fib(1) == 1);
    assert(fib(2) == 1);
    assert(fib(3) == 2);
    assert(fib(4) == 3);
    assert(fib(5) == 5);
    assert(fib(6) == 8);
    assert(fib(7) == 13);
    assert(fib(8) == 21);
    assert(fib(9) == 34);
    assert(fib(10) == 55);
    assert(fib(11) == 89);
    assert(fib(12) == 144);
    assert(fib(13) == 233);
    assert(fib(14) == 377);
    assert(fib(15) == 610);
    assert(fib(16) == 987);
    assert(fib(17) == 1597);
    assert(fib(18) == 2584);
    assert(fib(19) == 4181);
    assert(fib(20) == 6765);
    assert(fib(21) == 10946);
    assert(fib(22) == 17711);
    assert(fib(23) == 28657);
    assert(fib(24) == 46368);
    assert(fib(25) == 75025);
    assert(fib(26) == 121393);
    assert(fib(27) == 196418);
    assert(fib(28) == 317811);
    assert(fib(29) == 514229);
    assert(fib(30) == 832040);
    assert(fib(31) == 1346269);
    assert(fib(32) == 2178309);
    assert(fib(33) == 3524578);
    assert(fib(34) == 5702887);
    assert(fib(35) == 9227465);
    assert(fib(36) == 14930352);
    assert(fib(37) == 24157817);
    assert(fib(38) == 39088169);
    assert(fib(39) == 63245986);
    assert(fib(40) == 102334155);
    assert(fib(41) == 165580141);
    assert(fib(42) == 267914296);
    assert(fib(43) == 433494437);
    assert(fib(44) == 701408733);
    assert(fib(45) == 1134903170);
    assert(fib(46) == 1836311903);
    assert(fib(47) == 2971215073);
}

/// Computes the `n`th Fibonacci number. Beyond `n == 47` the result no
/// longer fits in a `u32`.
pub fn fibonacci(n: u32) -> (r: u32)
    requires
        n <= 47,
    ensures
        r == fib(n as nat),
    decreases n,
{
    if n == 0 {
        return 0;
    } else if n == 1 {
        return 1;
    } else {
        let a = fibonacci(n - 1);
        let b = fibonacci(n - 2);
        proof {
            lemma_fib_47();
            lemma_fib_monotonic(n as nat, 47);
            assert(fib(n as nat) == fib((n - 1) as nat) + fib((n - 2) as nat));
        }
        return a + b;
    }
}

} // verus!
