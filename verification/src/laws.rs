//! Laws relating the operations of the capability interface.
//!
//! Each law is stated over the post-conditions of `traits`, so it holds of
//! any realization, bounded or unbounded, as far as the realization's exact
//! oracle region reaches.

use crate::primality::is_prime_spec;
use crate::traits::{
    form_post, in_dom, isolated_post, nearest_greater_post, nearest_lesser_post, ng_some, nl_some,
    sophie_post, strength_post, SCAN_BUDGET,
};
use vstd::arithmetic::power::pow;
use vstd::prelude::*;

verus! {

/// Round trip upward: scanning upward from `p - 1` recovers the prime `p`,
/// since `p` is the immediate next prime after `p - 1`.
pub proof fn lemma_nearest_greater_round_trip(
    exact: spec_fn(int) -> bool,
    max: Option<int>,
    p: int,
    r: Option<int>,
)
    requires
        is_prime_spec(p),
        exact(p),
        in_dom(max, p),
        nearest_greater_post(exact, max, p - 1, r),
    ensures
        r == Some(p),
{
    match r {
        Some(x) => {
            if x > p {
                assert(!is_prime_spec(p));
            }
        },
        None => {
            assert(p - 1 < p <= p - 1 + SCAN_BUDGET);
            assert(!is_prime_spec(p));
        },
    }
}

/// Round trip downward: scanning downward from `p + 1` recovers the prime
/// `p`, since `p` is the immediate previous prime before `p + 1`.
pub proof fn lemma_nearest_lesser_round_trip(
    exact: spec_fn(int) -> bool,
    p: int,
    r: Option<int>,
)
    requires
        is_prime_spec(p),
        exact(p),
        nearest_lesser_post(exact, p + 1, r),
    ensures
        r == Some(p),
{
    match r {
        Some(x) => {
            if x < p {
                assert(!is_prime_spec(p));
            }
        },
        None => {
            assert(!is_prime_spec(p));
        },
    }
}

/// There is no prime below 2, so a downward scan from 2 or less comes back
/// empty.
pub proof fn lemma_nearest_lesser_below_two(exact: spec_fn(int) -> bool, v: int, r: Option<int>)
    requires
        v <= 2,
        nearest_lesser_post(exact, v, r),
    ensures
        r is None,
{
}

/// Above 2 a downward scan always finds a prime, since 2 itself lies in
/// every exact region scanned: `nearest_lesser` is absent exactly on
/// arguments at most 2.
pub proof fn lemma_nearest_lesser_finds_below(exact: spec_fn(int) -> bool, v: int, r: Option<int>)
    requires
        v > 2,
        exact(2),
        nearest_lesser_post(exact, v, r),
    ensures
        r is Some,
{
    crate::primality::lemma_two_is_prime();
    if r is None {
        assert(!is_prime_spec(2));
    }
}

/// On a bounded domain with a fully exact oracle, the strength verdict is a
/// pure function of the argument: any two calls agree.  (On the unbounded
/// domain the oracle above 2^64 is randomized, so two calls there may
/// genuinely differ.)
pub proof fn lemma_nt_strength_deterministic(
    exact: spec_fn(int) -> bool,
    m: int,
    v: int,
    r1: Option<i8>,
    r2: Option<i8>,
)
    requires
        forall|n: int| #[trigger] exact(n),
        strength_post(exact, Some(m), v, r1),
        strength_post(exact, Some(m), v, r2),
    ensures
        r1 == r2,
{
    match (r1, r2) {
        (Some(s1), Some(s2)) => {
            let (u1, d1) = choose|up: int, dn: int|
                {
                    &&& #[trigger] ng_some(exact, Some(m), v, up)
                    &&& #[trigger] nl_some(exact, v, dn)
                    &&& (s1 == -1 <==> up - v > v - dn)
                    &&& (s1 == 0 <==> up - v == v - dn)
                    &&& (s1 == 1 <==> up - v < v - dn)
                };
            let (u2, d2) = choose|up: int, dn: int|
                {
                    &&& #[trigger] ng_some(exact, Some(m), v, up)
                    &&& #[trigger] nl_some(exact, v, dn)
                    &&& (s2 == -1 <==> up - v > v - dn)
                    &&& (s2 == 0 <==> up - v == v - dn)
                    &&& (s2 == 1 <==> up - v < v - dn)
                };
            if u1 < u2 {
                assert(!is_prime_spec(u1));
            }
            if u2 < u1 {
                assert(!is_prime_spec(u2));
            }
            if d1 < d2 {
                assert(!is_prime_spec(d2));
            }
            if d2 < d1 {
                assert(!is_prime_spec(d1));
            }
        },
        (Some(s1), None) => {
            let (u1, d1) = choose|up: int, dn: int|
                {
                    &&& #[trigger] ng_some(exact, Some(m), v, up)
                    &&& #[trigger] nl_some(exact, v, dn)
                    &&& (s1 == -1 <==> up - v > v - dn)
                    &&& (s1 == 0 <==> up - v == v - dn)
                    &&& (s1 == 1 <==> up - v < v - dn)
                };
            assert(is_prime_spec(u1) && !is_prime_spec(u1) || is_prime_spec(d1)
                && !is_prime_spec(d1));
        },
        (None, Some(s2)) => {
            let (u2, d2) = choose|up: int, dn: int|
                {
                    &&& #[trigger] ng_some(exact, Some(m), v, up)
                    &&& #[trigger] nl_some(exact, v, dn)
                    &&& (s2 == -1 <==> up - v > v - dn)
                    &&& (s2 == 0 <==> up - v == v - dn)
                    &&& (s2 == 1 <==> up - v < v - dn)
                };
            assert(is_prime_spec(u2) && !is_prime_spec(u2) || is_prime_spec(d2)
                && !is_prime_spec(d2));
        },
        (None, None) => {},
    }
}

/// A member of a twin prime pair is never isolated: if either neighbour at
/// distance 2 is prime (and the oracle is exact there), `is_isolated` said
/// no.
pub proof fn lemma_isolated_excludes_twin(
    exact: spec_fn(int) -> bool,
    max: Option<int>,
    v: int,
    r: bool,
)
    requires
        isolated_post(exact, max, v, r),
        exact(v - 2),
        exact(v + 2),
        is_prime_spec(v - 2) || is_prime_spec(v + 2),
    ensures
        !r,
{
}

/// The Sophie Germain pairing is decided by the Fermat witness equation
/// alone: when the equation fails, the answer is absent, irrespective of
/// whether `2v + 1` is in fact prime by a full test.
pub proof fn lemma_sophie_witness_decides(
    exact: spec_fn(int) -> bool,
    max: Option<int>,
    v: int,
    r: Option<int>,
)
    requires
        sophie_post(exact, max, v, r),
        pow(2, (2 * v) as nat) % (2 * v + 1) != 1,
    ensures
        r is None,
{
}

/// `is_form` rejects any addend at least as large as the argument, whatever
/// the scalar.
pub proof fn lemma_form_rejects_large_addend(
    exact: spec_fn(int) -> bool,
    v: int,
    s: int,
    a: int,
    r: bool,
)
    requires
        form_post(exact, v, s, a, r),
        a >= v,
    ensures
        !r,
{
}

} // verus!
