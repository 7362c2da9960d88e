//! Number facts behind the mathematical atlas: primality, the order of the
//! alternating groups, and the (simplified) order of groups of Lie type.
use vstd::prelude::*;
use vstd::arithmetic::div_mod::{lemma_fundamental_div_mod, lemma_fundamental_div_mod_converse, lemma_mod_multiples_basic};

verus! {

/// `n` is prime: greater than one, with no divisor strictly between one
/// and itself.
pub open spec fn is_prime_number(n: nat) -> bool {
    n > 1 && forall|d: int| 2 <= d < n ==> #[trigger] (n as int % d) != 0
}

/// A multiple of a multiple of `m` is a multiple of `m`.
proof fn lemma_divisor_transfer(n: int, d: int, m: int)
    requires
        0 < m,
        0 < d,
        n % d == 0,
        d % m == 0,
    ensures
        n % m == 0,
{
    lemma_fundamental_div_mod(n, d);
    lemma_fundamental_div_mod(d, m);
    let q = n / d;
    let k = d / m;
    assert(n == (k * q) * m) by (nonlinear_arith)
        requires
            n == d * q,
            d == m * k,
    ;
    lemma_mod_multiples_basic(k * q, m);
}

/// A divisor of `n` at least `i`, with `n < i * i`, leaves a cofactor
/// below `i` that also divides `n`.
proof fn lemma_small_cofactor(n: int, d: int, i: int)
    requires
        2 <= i <= d < n,
        n < i * i,
        n % d == 0,
    ensures
        2 <= n / d < i,
        n % (n / d) == 0,
{
    lemma_fundamental_div_mod(n, d);
    let e = n / d;
    assert(n == d * e);
    assert(e >= 2) by (nonlinear_arith)
        requires
            n == d * e,
            2 <= d < n,
    ;
    assert(d * e >= i * e) by (nonlinear_arith)
        requires
            i <= d,
            e >= 0,
    ;
    if e >= i {
        assert(i * e >= i * i) by (nonlinear_arith)
            requires
                e >= i,
                i >= 0,
        ;
    }
    lemma_fundamental_div_mod_converse(n, e, d, 0);
}

/// Whether `n` is prime, trying 2, 3 and then the numbers `6k ± 1` up to
/// the square root of `n`.
pub fn is_prime(n: usize) -> (r: bool)
    ensures
        r == is_prime_number(n as nat),
{
    if n <= 1 {
        return false;
    }
    if n <= 3 {
        assert(forall|d: int| 2 <= d < n ==> #[trigger] (n as int % d) != 0);
        return true;
    }
    if n % 2 == 0 {
        assert((n as int % 2) == 0);
        return false;
    }
    if n % 3 == 0 {
        assert((n as int % 3) == 0);
        return false;
    }
    let mut i: usize = 5;
    assert forall|d: int| 2 <= d < 5 implies #[trigger] (n as int % d) != 0 by {
        if d == 4 && n as int % 4 == 0 {
            lemma_divisor_transfer(n as int, 4, 2);
        }
    }
    while i <= n / i
        invariant
            5 <= i,
            i % 6 == 5,
            n > 3,
            n % 2 != 0,
            n % 3 != 0,
            i <= n,
            forall|d: int| 2 <= d < i ==> #[trigger] (n as int % d) != 0,
        decreases n - i,
    {
        assert(i * i <= n) by (nonlinear_arith)
            requires
                i <= n / i,
                i > 0,
        ;
        assert(i + 6 < i * i) by (nonlinear_arith)
            requires
                i >= 5,
        ;
        if n % i == 0 {
            assert((n as int % i as int) == 0);
            return false;
        }
        if n % (i + 2) == 0 {
            assert((n as int % (i + 2) as int) == 0);
            return false;
        }
        assert forall|d: int| 2 <= d < i + 6 implies #[trigger] (n as int % d) != 0 by {
            if i < d < i + 6 && d != i + 2 {
                if (d - i) % 2 == 1 {
                    if n as int % d == 0 {
                        assert(d % 2 == 0);
                        lemma_divisor_transfer(n as int, d, 2);
                    }
                } else {
                    if n as int % d == 0 {
                        assert(d % 3 == 0);
                        lemma_divisor_transfer(n as int, d, 3);
                    }
                }
            }
        }
        i = i + 6;
    }
    assert(n < i * i) by (nonlinear_arith)
        requires
            i > n / i,
            i > 0,
    ;
    assert forall|d: int| 2 <= d < n implies #[trigger] (n as int % d) != 0 by {
        if d >= i && n as int % d == 0 {
            lemma_small_cofactor(n as int, d, i as int);
            let e = n as int / d;
            assert(n as int % e != 0);
        }
    }
    true
}

// ───────────────────────────── group orders ────────────────────────────

/// `n!`.
pub open spec fn factorial(n: nat) -> nat
    decreases n,
{
    if n == 0 {
        1
    } else {
        n * factorial((n - 1) as nat)
    }
}

pub proof fn lemma_factorial_monotone(a: nat, b: nat)
    requires
        a <= b,
    ensures
        1 <= factorial(a) <= factorial(b),
    decreases b,
{
    if b > 0 {
        if a < b {
            lemma_factorial_monotone(a, (b - 1) as nat);
        } else {
            lemma_factorial_monotone((b - 1) as nat, (b - 1) as nat);
        }
        let f = factorial((b - 1) as nat);
        assert(b * f >= f) by (nonlinear_arith)
            requires
                b >= 1,
                f >= 0,
        ;
    }
}

/// The order of the alternating group `A_n`: `n!/2`, taken as 1 below 5.
pub open spec fn alternating_order(n: nat) -> nat {
    if n < 5 {
        1
    } else {
        factorial(n) / 2
    }
}

/// The order of `A_n` (`n!` must fit in a `usize`).
pub fn calculate_alternating_order(n: usize) -> (r: usize)
    requires
        n < 5 || factorial(n as nat) <= usize::MAX,
    ensures
        r == alternating_order(n as nat),
{
    if n < 5 {
        return 1;
    }
    let mut f: usize = 1;
    let mut i: usize = 1;
    assert(factorial(1) == 1 * factorial(0));
    while i < n
        invariant
            1 <= i <= n,
            f == factorial(i as nat),
            factorial(n as nat) <= usize::MAX,
        decreases n - i,
    {
        i = i + 1;
        proof {
            lemma_factorial_monotone(i as nat, n as nat);
            let prev = factorial((i - 1) as nat);
            assert(factorial(i as nat) == i * prev);
            assert(i * prev == f * i) by (nonlinear_arith)
                requires
                    f == prev,
            ;
        }
        f = f * i;
    }
    f / 2
}

/// The (simplified) order of a group of Lie type of the given rank:
/// `PSL(2,2)` has 6 elements, `PSL(3,2)` 168, and otherwise
/// `1000 · rank²`.
pub open spec fn lie_type_order(rank: nat) -> nat {
    if rank == 2 {
        6
    } else if rank == 3 {
        168
    } else {
        1000 * rank * rank
    }
}

/// The order of a group of Lie type (the product must fit in a `usize`).
pub fn calculate_lie_type_order(rank: usize) -> (r: usize)
    requires
        rank == 2 || rank == 3 || 1000 * rank * rank <= usize::MAX,
    ensures
        r == lie_type_order(rank as nat),
{
    if rank == 2 {
        6
    } else if rank == 3 {
        168
    } else {
        assert(1000 * rank <= 1000 * rank * rank) by (nonlinear_arith)
            requires
                rank >= 1 || rank == 0,
        ;
        1000 * rank * rank
    }
}

} // verus!
