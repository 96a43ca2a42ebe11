//! Delay line lengths for the reverb: primes, so that the lines' echoes do
//! not line up.
use vstd::prelude::*;

verus! {

/// `n` is prime: at least 2, and divisible by no number from 2 to `n - 1`.
pub open spec fn spec_is_prime(n: nat) -> bool {
    n >= 2 && forall|d: nat| 2 <= d < n ==> #[trigger] (n % d) != 0
}

/// A divisor of `n` other than `n` itself is at most `n / 2`, so `n` over it
/// is at least 2; the two multiply back to `n`.
proof fn lemma_cofactor(n: nat, k: nat)
    requires
        2 <= k < n,
        n % k == 0,
    ensures
        n / k >= 2,
        n % (n / k) == 0,
        (n / k) * k == n,
{
    vstd::arithmetic::div_mod::lemma_fundamental_div_mod(n as int, k as int);
    let m = n / k;
    assert(n == k * m);
    assert(m >= 2) by (nonlinear_arith)
        requires
            n == k * m,
            k < n,
            k >= 2,
    ;
    assert(n == m * k) by (nonlinear_arith)
        requires
            n == k * m,
    ;
    vstd::arithmetic::div_mod::lemma_mod_multiples_basic(k as int, m as int);
}

/// Whether `n` is prime, by trial division up to its square root.
pub fn is_prime(n: usize) -> (r: bool)
    ensures
        r == spec_is_prime(n as nat),
{
    if n < 2 {
        return false;
    }
    if n % 2 == 0 {
        proof {
            if n != 2 {
                assert((n as nat) % 2 == 0);
            }
        }
        return n == 2;
    }
    let mut d: usize = 3;
    loop
        invariant
            3 <= d <= n,
            d % 2 == 1,
            n % 2 == 1,
            forall|k: nat| 2 <= k < d ==> #[trigger] ((n as nat) % k) != 0,
        ensures
            d * d > n,
        decreases n - d,
    {
        assert((d as int) * (d as int) <= u128::MAX) by (nonlinear_arith)
            requires
                d <= u64::MAX,
        ;
        let square: u128 = (d as u128) * (d as u128);
        if square > n as u128 {
            break;
        }
        if n % d == 0 {
            proof {
                assert(d < n) by (nonlinear_arith)
                    requires
                        d * d <= n,
                        d >= 3,
                ;
                assert((n as nat) % (d as nat) == 0);
            }
            return false;
        }
        proof {
            assert((n as nat) % ((d + 1) as nat) != 0) by {
                let e = (d + 1) as nat;
                if (n as nat) % e == 0 {
                    vstd::arithmetic::div_mod::lemma_fundamental_div_mod(n as int, e as int);
                    let q = (n as nat) / e;
                    let h = ((d + 1) / 2) as nat;
                    assert(n == 2 * (q * h)) by (nonlinear_arith)
                        requires
                            n == e * q,
                            e == d + 1,
                            e == 2 * h,
                    ;
                    vstd::arithmetic::div_mod::lemma_mod_multiples_basic((q * h) as int, 2);
                    assert((2 * (q * h)) % 2 == 0) by (nonlinear_arith);
                }
            }
            assert(d < n) by (nonlinear_arith)
                requires
                    d * d <= n,
                    d >= 3,
            ;
        }
        d = d + 2;
    }
    proof {
        assert forall|k: nat| 2 <= k < n implies #[trigger] ((n as nat) % k) != 0 by {
            if k >= d && (n as nat) % k == 0 {
                lemma_cofactor(n as nat, k);
                let m = (n as nat) / k;
                assert(m < d) by (nonlinear_arith)
                    requires
                        m * k == n,
                        k >= d,
                        d * d > n,
                        d >= 3,
                ;
                assert((n as nat) % m != 0);
            }
        }
    }
    true
}

/// The least prime at least `max(n, 2)`; `None` when no `usize` above it is
/// prime.
pub fn next_prime(n: usize) -> (r: Option<usize>)
    ensures
        r matches Some(p) ==> {
            &&& spec_is_prime(p as nat)
            &&& p >= n
            &&& p >= 2
            &&& forall|q: nat| n <= q < p && q >= 2 ==> !spec_is_prime(q)
        },
        r is None ==> forall|q: nat| n <= q <= usize::MAX && q >= 2 ==> !spec_is_prime(q),
{
    let mut m: usize = if n < 2 {
        2
    } else {
        n
    };
    loop
        invariant
            m >= 2,
            m >= n,
            forall|q: nat| n <= q < m && q >= 2 ==> !spec_is_prime(q),
        decreases usize::MAX - m,
    {
        if is_prime(m) {
            return Some(m);
        }
        if m == usize::MAX {
            return None;
        }
        m = m + 1;
    }
}

} // verus!
