//! The prime-testable capability interface and the post-conditions shared by
//! its realizations.
//!
//! Every operation's contract is phrased over three pieces of data that each
//! realization supplies:
//! - `value`: the mathematical integer a domain element denotes;
//! - `domain_max`: the domain's largest element, `None` for an unbounded domain;
//! - `oracle_exact`: the region on which the domain's primality oracle is
//!   known to agree with `is_prime_spec`.  Outside that region (only the
//!   arbitrary-precision realization has one) the oracle is a probabilistic
//!   test whose verdict may even vary between calls, so the contracts state
//!   only what holds of every possible outcome.

use crate::primality::is_prime_spec;
use vstd::arithmetic::power::pow;
use vstd::prelude::*;

verus! {

/// How many upward steps an unbounded scan is willing to take before giving
/// up.  Exhausting it would require more primality tests than are physically
/// computable, so in practice the scan ends only by finding a candidate the
/// oracle accepts.
pub const SCAN_BUDGET: u64 = 0xffff_ffff_ffff_ffff;

/// `n` lies in the domain: non-negative, and within the bound if one exists.
pub open spec fn in_dom(max: Option<int>, n: int) -> bool {
    0 <= n && (match max {
        Some(m) => n <= m,
        None => true,
    })
}

/// What `is_standard` guarantees: wherever the oracle is exact, the verdict
/// is true primality.
pub open spec fn standard_post(exact: spec_fn(int) -> bool, v: int, r: bool) -> bool {
    exact(v) ==> r == is_prime_spec(v)
}

/// What `sophie_safe` guarantees.  A returned value is exactly `2v + 1`, it
/// fits the domain, the oracle accepted `v`, and the Fermat witness equation
/// `2^(2v) = 1 (mod 2v + 1)` holds.  `None` is returned whenever `v` is
/// rejected, `2v + 1` does not fit, or the witness equation fails -- in
/// particular, for a prime `v` in the exact region with `2v + 1` in the
/// domain, the witness equation alone decides the outcome.
pub open spec fn sophie_post(
    exact: spec_fn(int) -> bool,
    max: Option<int>,
    v: int,
    r: Option<int>,
) -> bool {
    match r {
        Some(s) => {
            &&& s == 2 * v + 1
            &&& in_dom(max, 2 * v + 1)
            &&& (exact(v) ==> is_prime_spec(v))
            &&& pow(2, (2 * v) as nat) % (2 * v + 1) == 1
        },
        None => (exact(v) && is_prime_spec(v) && in_dom(max, 2 * v + 1)) ==> pow(
            2,
            (2 * v) as nat,
        ) % (2 * v + 1) != 1,
    }
}

/// What `delta` guarantees.  The order of checks is fixed: the argument's own
/// primality, then the upward candidate `v + d`, then the downward candidate
/// `v - d`, with the domain's zero as the "no prime at this exact offset"
/// sentinel.  Each branch applies as far as the oracle's exact region can
/// tell; at a point outside it, the contract keeps every outcome the scan
/// could take from there.
pub open spec fn delta_post(
    exact: spec_fn(int) -> bool,
    max: Option<int>,
    v: int,
    d: int,
    r: Option<int>,
) -> bool {
    if exact(v) {
        if !is_prime_spec(v) {
            r is None
        } else if !in_dom(max, v + d) {
            r is None
        } else if exact(v + d) {
            if is_prime_spec(v + d) {
                r == Some(v + d)
            } else if d > v {
                r is None
            } else if exact(v - d) {
                if is_prime_spec(v - d) {
                    r == Some(v - d)
                } else {
                    r == Some(0int)
                }
            } else {
                r == Some(v - d) || r == Some(0int)
            }
        } else {
            r == Some(v + d) || (if d > v {
                r is None
            } else if exact(v - d) {
                if is_prime_spec(v - d) {
                    r == Some(v - d)
                } else {
                    r == Some(0int)
                }
            } else {
                r == Some(v - d) || r == Some(0int)
            })
        }
    } else {
        r is None || r == Some(v + d) || r == Some(v - d) || r == Some(0int)
    }
}

/// `p` is what a successful upward scan from `v` may return: beyond `v`, in
/// the domain, accepted by the oracle (hence prime if the point is exact),
/// with every exact point of the gap `(v, p)` composite.
pub open spec fn ng_some(exact: spec_fn(int) -> bool, max: Option<int>, v: int, p: int) -> bool {
    &&& v < p
    &&& in_dom(max, p)
    &&& (exact(p) ==> is_prime_spec(p))
    &&& forall|k: int| v < k < p && exact(k) ==> !(#[trigger] is_prime_spec(k))
}

/// What a failed upward scan from `v` establishes: every exact point of the
/// scanned range is composite.  A bounded domain scans up to its maximum, an
/// unbounded one through `SCAN_BUDGET` candidates.
pub open spec fn ng_none(exact: spec_fn(int) -> bool, max: Option<int>, v: int) -> bool {
    match max {
        Some(m) => forall|k: int| v < k <= m && exact(k) ==> !(#[trigger] is_prime_spec(k)),
        None => forall|k: int|
            v < k <= v + SCAN_BUDGET && exact(k) ==> !(#[trigger] is_prime_spec(k)),
    }
}

/// What `nearest_greater` guarantees.
pub open spec fn nearest_greater_post(
    exact: spec_fn(int) -> bool,
    max: Option<int>,
    v: int,
    r: Option<int>,
) -> bool {
    match r {
        Some(p) => ng_some(exact, max, v, p),
        None => ng_none(exact, max, v),
    }
}

/// `p` is what a successful downward scan from `v` may return.  The scan
/// never goes below 2, the smallest prime.
pub open spec fn nl_some(exact: spec_fn(int) -> bool, v: int, p: int) -> bool {
    &&& 2 <= p < v
    &&& (exact(p) ==> is_prime_spec(p))
    &&& forall|k: int| p < k < v && exact(k) ==> !(#[trigger] is_prime_spec(k))
}

/// What a failed downward scan from `v` establishes.  For `v <= 2` the range
/// is empty: there is no prime below 2.
pub open spec fn nl_none(exact: spec_fn(int) -> bool, v: int) -> bool {
    forall|k: int| 2 <= k < v && exact(k) ==> !(#[trigger] is_prime_spec(k))
}

/// What `nearest_lesser` guarantees.  Note that the `Some` arm forces the
/// answer for `v <= 2` to be `None`.
pub open spec fn nearest_lesser_post(exact: spec_fn(int) -> bool, v: int, r: Option<int>) -> bool {
    match r {
        Some(p) => nl_some(exact, v, p),
        None => nl_none(exact, v),
    }
}

/// Both candidates at radius `q` around `v` were tested and rejected, as far
/// as the exact region can tell.  The upward candidate exists when `v + q`
/// is in the domain, the downward one when `q < v`.
pub open spec fn radius_fails(exact: spec_fn(int) -> bool, max: Option<int>, v: int, q: int) -> bool {
    &&& ((in_dom(max, v + q) && exact(v + q)) ==> !is_prime_spec(v + q))
    &&& ((q < v && exact(v - q)) ==> !is_prime_spec(v - q))
}

/// What `nearest` guarantees: the result is reached by growing a symmetric
/// radius around `v`, testing the upward candidate before the downward one at
/// each radius, so every radius short of the winning one failed in both
/// directions, and an upward winner is preferred at its own radius.
pub open spec fn nearest_post(
    exact: spec_fn(int) -> bool,
    max: Option<int>,
    v: int,
    r: int,
) -> bool {
    &&& in_dom(max, r)
    &&& r != v
    &&& (exact(r) ==> is_prime_spec(r))
    &&& (forall|q: int|
        1 <= q < (if r > v {
            r - v
        } else {
            v - r
        }) ==> #[trigger] radius_fails(exact, max, v, q))
    &&& (r < v ==> ((in_dom(max, v + (v - r)) && exact(v + (v - r))) ==> !is_prime_spec(
        v + (v - r),
    )))
}

/// What `nt_strength` guarantees: a verdict classifies the distances to the
/// two neighbouring primes the scans returned; absence means the argument was
/// rejected or one of the scans came back empty.
pub open spec fn strength_post(
    exact: spec_fn(int) -> bool,
    max: Option<int>,
    v: int,
    r: Option<i8>,
) -> bool {
    match r {
        Some(s) => {
            &&& (exact(v) ==> is_prime_spec(v))
            &&& exists|up: int, dn: int|
                {
                    &&& #[trigger] ng_some(exact, max, v, up)
                    &&& #[trigger] nl_some(exact, v, dn)
                    &&& (s == -1 <==> up - v > v - dn)
                    &&& (s == 0 <==> up - v == v - dn)
                    &&& (s == 1 <==> up - v < v - dn)
                }
        },
        None => (exact(v) && is_prime_spec(v)) ==> (ng_none(exact, max, v) || nl_none(exact, v)),
    }
}

/// What `is_form` guarantees: true exactly on primes lying in the residue
/// class `addend (mod scalar)` strictly below the argument.
pub open spec fn form_post(exact: spec_fn(int) -> bool, v: int, s: int, a: int, r: bool) -> bool {
    if a < v && (v - a) % s == 0 {
        exact(v) ==> r == is_prime_spec(v)
    } else {
        r == false
    }
}

/// What `is_isolated` guarantees: true only on primes with no twin at
/// distance 2 on either side; values below 2, or too close to a bounded
/// domain's maximum to test `v + 2`, are rejected outright.
pub open spec fn isolated_post(
    exact: spec_fn(int) -> bool,
    max: Option<int>,
    v: int,
    r: bool,
) -> bool {
    &&& (v < 2 ==> r == false)
    &&& (!in_dom(max, v + 2) ==> r == false)
    &&& ((exact(v) && !is_prime_spec(v)) ==> r == false)
    &&& ((r && exact(v)) ==> is_prime_spec(v))
    &&& ((r && exact(v - 2)) ==> !is_prime_spec(v - 2))
    &&& ((r && exact(v + 2)) ==> !is_prime_spec(v + 2))
    &&& ((v >= 2 && in_dom(max, v + 2) && exact(v) && exact(v - 2) && exact(v + 2)) ==> r == (
    is_prime_spec(v) && !is_prime_spec(v - 2) && !is_prime_spec(v + 2)))
}

/// A prime-testable integer domain.
pub trait NTPrimality: Sized {
    /// The mathematical integer this element denotes.
    spec fn value(&self) -> int;

    /// The largest element of the domain, or `None` if it is unbounded.
    spec fn domain_max() -> Option<int>;

    /// The region on which the domain's primality oracle is known exact.
    spec fn oracle_exact(n: int) -> bool;

    /// True iff the domain's oracle reports `self` prime; on the exact
    /// region this is true primality.
    fn is_standard(&self) -> (r: bool)
        requires
            in_dom(Self::domain_max(), self.value()),
        ensures
            standard_post(|n: int| Self::oracle_exact(n), self.value(), r),
    ;

    /// If `self` is prime, pair it with its safe prime `2v + 1` when the
    /// Fermat witness equation certifies the pairing; the check is exactly
    /// the witness equation, never a full primality test of `2v + 1`.
    fn sophie_safe(&self) -> (r: Option<Self>)
        requires
            in_dom(Self::domain_max(), self.value()),
        ensures
            sophie_post(
                |n: int| Self::oracle_exact(n),
                Self::domain_max(),
                self.value(),
                (match r {
                    Some(x) => Some(x.value()),
                    None => None,
                }),
            ),
    ;

    /// For a prime `self`, the prime at distance exactly `d`, looking upward
    /// first, then downward; the domain's zero when neither neighbour is
    /// prime; `None` when `self` is rejected or the search is ill-formed.
    fn delta(&self, d: Self) -> (r: Option<Self>)
        requires
            in_dom(Self::domain_max(), self.value()),
            in_dom(Self::domain_max(), d.value()),
        ensures
            delta_post(
                |n: int| Self::oracle_exact(n),
                Self::domain_max(),
                self.value(),
                d.value(),
                (match r {
                    Some(x) => Some(x.value()),
                    None => None,
                }),
            ),
    ;

    /// The first value above `self` the oracle accepts, scanning one step at
    /// a time; `None` once the domain (or the scan budget) is exhausted.
    fn nearest_greater(&self) -> (r: Option<Self>)
        requires
            in_dom(Self::domain_max(), self.value()),
        ensures
            nearest_greater_post(
                |n: int| Self::oracle_exact(n),
                Self::domain_max(),
                self.value(),
                (match r {
                    Some(x) => Some(x.value()),
                    None => None,
                }),
            ),
    ;

    /// The first value below `self` the oracle accepts, scanning one step at
    /// a time and never below 2; `None` when `self <= 2`.
    fn nearest_lesser(&self) -> (r: Option<Self>)
        requires
            in_dom(Self::domain_max(), self.value()),
        ensures
            nearest_lesser_post(|n: int| Self::oracle_exact(n), self.value(), (match r {
                    Some(x) => Some(x.value()),
                    None => None,
                })),
    ;

    /// The accepted value closest to `self`, preferring the larger of two
    /// equidistant candidates.
    fn nearest(&self) -> (r: Self)
        requires
            in_dom(Self::domain_max(), self.value()),
        ensures
            nearest_post(
                |n: int| Self::oracle_exact(n),
                Self::domain_max(),
                self.value(),
                r.value(),
            ),
    ;

    /// Classify a prime by its neighbouring primes: `-1` (weak) when the
    /// greater neighbour is farther, `0` (balanced) when equidistant, `1`
    /// (strong) when the lesser neighbour is farther.
    fn nt_strength(&self) -> (r: Option<i8>)
        requires
            in_dom(Self::domain_max(), self.value()),
        ensures
            strength_post(
                |n: int| Self::oracle_exact(n),
                Self::domain_max(),
                self.value(),
                r,
            ),
    ;

    /// True iff `self` is a prime of the form `scalar * k + addend` for some
    /// `k >= 1`, that is, `addend < self` and `scalar` divides
    /// `self - addend` exactly.
    fn is_form(&self, scalar: Self, addend: Self) -> (r: bool)
        requires
            in_dom(Self::domain_max(), self.value()),
            in_dom(Self::domain_max(), scalar.value()),
            in_dom(Self::domain_max(), addend.value()),
            addend.value() < self.value() ==> 1 <= scalar.value(),
        ensures
            form_post(
                |n: int| Self::oracle_exact(n),
                self.value(),
                scalar.value(),
                addend.value(),
                r,
            ),
    ;

    /// True iff `self` is prime and neither `self - 2` nor `self + 2` is.
    fn is_isolated(&self) -> (r: bool)
        requires
            in_dom(Self::domain_max(), self.value()),
        ensures
            isolated_post(
                |n: int| Self::oracle_exact(n),
                Self::domain_max(),
                self.value(),
                r,
            ),
    ;
}

} // verus!
