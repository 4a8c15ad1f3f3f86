//! The unbounded realization: `number_theory`'s arbitrary-precision `Mpz`.
//!
//! An `Mpz` is opaque to the verifier; `mpz_val` names the integer a value
//! holds, and trusted wrappers around the crate's own operations state how
//! each call relates those integers.  `Mpz`'s primality test reduces to a
//! deterministic 64-bit test below 2^64, but above 2^64 it draws random
//! strong-Fermat witnesses, so its verdict there is not even a function of
//! the value; the exact oracle region is therefore `[0, 2^64)`, and outside
//! it the contracts state only what holds of every outcome.

use crate::primality::{is_prime_spec, lemma_three_is_prime, lemma_two_is_prime};
use crate::traits::{delta_post, form_post, isolated_post, nearest_greater_post,
    nearest_lesser_post, nearest_post, sophie_post, standard_post, strength_post,
    NTPrimality, SCAN_BUDGET};
use core::cmp::Ordering;
use number_theory::Mpz;
use vstd::arithmetic::power::pow;
use vstd::prelude::*;

verus! {

#[verifier::external_type_specification]
#[verifier::external_body]
pub struct ExMpz(Mpz);

/// The integer an `Mpz` value holds.  Only values in the crate's normal form
/// (a non-negative sign and no leading zero limbs) denote the non-negative
/// integer they represent; any other value stands below zero under this
/// model, so the wrappers' `mpz_val(..) >= 0` preconditions admit exactly
/// the normal-form values, on which the stated behaviour of `u_cmp`,
/// `is_prime` and the arithmetic holds.  Every wrapper returns values in
/// normal form.
pub uninterp spec fn mpz_val(x: Mpz) -> int;

/// Relies on `Mpz`'s `NumberTheory::is_prime`: below 2^64 the value fits in
/// two limbs, is converted to `u128`, and `machine_prime`'s deterministic
/// 64-bit branch decides; above 2^64 the test is probabilistic and nothing
/// is promised of its verdict.
#[verifier::external_body]
fn mpz_is_prime(x: &Mpz) -> (r: bool)
    requires
        mpz_val(*x) >= 0,
    ensures
        mpz_val(*x) < 0x1_0000_0000_0000_0000 ==> r == is_prime_spec(mpz_val(*x)),
{
    number_theory::NumberTheory::is_prime(x)
}

/// Relies on `Mpz::ref_addition`: signed addition of two values.
#[verifier::external_body]
fn mpz_add(a: &Mpz, b: &Mpz) -> (r: Mpz)
    requires
        mpz_val(*a) >= 0,
        mpz_val(*b) >= 0,
    ensures
        mpz_val(r) == mpz_val(*a) + mpz_val(*b),
{
    a.ref_addition(b)
}

/// Relies on `Mpz::ref_subtraction`: signed subtraction, which on a minuend
/// at least as large as the subtrahend yields their difference.
#[verifier::external_body]
fn mpz_sub(a: &Mpz, b: &Mpz) -> (r: Mpz)
    requires
        0 <= mpz_val(*b) <= mpz_val(*a),
    ensures
        mpz_val(r) == mpz_val(*a) - mpz_val(*b),
{
    a.ref_subtraction(b)
}

/// Relies on `Mpz::u_cmp`: comparison of magnitudes, which on non-negative
/// values is comparison of the values themselves.
#[verifier::external_body]
fn mpz_cmp(a: &Mpz, b: &Mpz) -> (r: Ordering)
    requires
        mpz_val(*a) >= 0,
        mpz_val(*b) >= 0,
    ensures
        (r == Ordering::Less <==> mpz_val(*a) < mpz_val(*b)),
        (r == Ordering::Equal <==> mpz_val(*a) == mpz_val(*b)),
        (r == Ordering::Greater <==> mpz_val(*a) > mpz_val(*b)),
{
    a.u_cmp(b)
}

/// Relies on `Mpz::ref_euclidean`: Euclidean division of magnitudes by a
/// non-zero divisor; the second component is the remainder.  Its multi-limb
/// branch can hand the remainder back with a leading zero limb, so the
/// result is brought to normal form with `Mpz::normalize`, the crate's own
/// canonicalizer, before it is returned.
#[verifier::external_body]
fn mpz_rem(a: &Mpz, b: &Mpz) -> (r: Mpz)
    requires
        mpz_val(*a) >= 0,
        mpz_val(*b) >= 1,
    ensures
        mpz_val(r) == mpz_val(*a) % mpz_val(*b),
{
    let mut remainder = a.ref_euclidean(b).1;
    remainder.normalize();
    remainder
}

/// Relies on `Mpz`'s conversion from `u64`.
#[verifier::external_body]
fn mpz_from_u64(x: u64) -> (r: Mpz)
    ensures
        mpz_val(r) == x as int,
{
    Mpz::from(x)
}

/// Relies on `Mpz::is_sophie`: it tests its argument with `Mpz::is_prime`
/// and, on acceptance, returns `2v + 1` exactly when the Fermat witness
/// equation `2^(2v) = 1 (mod 2v + 1)` holds, computed by deterministic
/// modular exponentiation.
#[verifier::external_body]
fn mpz_is_sophie(x: &Mpz) -> (r: Option<Mpz>)
    requires
        mpz_val(*x) >= 0,
    ensures
        match r {
            Some(s) => mpz_val(s) == 2 * mpz_val(*x) + 1 && (mpz_val(*x)
                < 0x1_0000_0000_0000_0000 ==> is_prime_spec(mpz_val(*x))) && pow(
                2,
                (2 * mpz_val(*x)) as nat,
            ) % (2 * mpz_val(*x) + 1) == 1,
            None => (mpz_val(*x) < 0x1_0000_0000_0000_0000 && is_prime_spec(mpz_val(*x))) ==> pow(
                2,
                (2 * mpz_val(*x)) as nat,
            ) % (2 * mpz_val(*x) + 1) != 1,
        },
{
    x.is_sophie()
}

impl NTPrimality for Mpz {
    open spec fn value(&self) -> int {
        mpz_val(*self)
    }

    open spec fn domain_max() -> Option<int> {
        None
    }

    open spec fn oracle_exact(n: int) -> bool {
        0 <= n < 0x1_0000_0000_0000_0000
    }

    fn is_standard(&self) -> (r: bool)
        ensures
            standard_post(|n: int| Self::oracle_exact(n), self.value(), r),
    {
        mpz_is_prime(self)
    }

    fn sophie_safe(&self) -> (r: Option<Mpz>)
        ensures
            sophie_post(
                |n: int| Self::oracle_exact(n),
                Self::domain_max(),
                self.value(),
                (match r {
                    Some(x) => Some(x.value()),
                    None => None,
                }),
            ),
    {
        mpz_is_sophie(self)
    }

    fn delta(&self, d: Mpz) -> (r: Option<Mpz>)
        ensures
            delta_post(
                |n: int| Self::oracle_exact(n),
                Self::domain_max(),
                self.value(),
                d.value(),
                (match r {
                    Some(x) => Some(x.value()),
                    None => None,
                }),
            ),
    {
        if !mpz_is_prime(self) {
            return None;
        }
        let up = mpz_add(self, &d);
        if mpz_is_prime(&up) {
            return Some(up);
        }
        match mpz_cmp(self, &d) {
            Ordering::Less => None,
            _ => {
                let down = mpz_sub(self, &d);
                if mpz_is_prime(&down) {
                    Some(down)
                } else {
                    Some(mpz_from_u64(0))
                }
            },
        }
    }

    fn nearest_greater(&self) -> (r: Option<Mpz>)
        ensures
            nearest_greater_post(
                |n: int| Self::oracle_exact(n),
                Self::domain_max(),
                self.value(),
                (match r {
                    Some(x) => Some(x.value()),
                    None => None,
                }),
            ),
    {
        let one = mpz_from_u64(1);
        let mut x = mpz_add(self, &one);
        let mut budget: u64 = SCAN_BUDGET;
        loop
            invariant
                mpz_val(*self) >= 0,
                mpz_val(one) == 1,
                1 <= budget <= SCAN_BUDGET,
                mpz_val(x) == mpz_val(*self) + (SCAN_BUDGET - budget) + 1,
                forall|k: int|
                    mpz_val(*self) < k < mpz_val(x) && 0 <= k < 0x1_0000_0000_0000_0000 ==> !(
                    #[trigger] is_prime_spec(k)),
            decreases budget,
        {
            if mpz_is_prime(&x) {
                return Some(x);
            }
            if budget == 1 {
                return None;
            }
            budget = budget - 1;
            x = mpz_add(&x, &one);
        }
    }

    fn nearest_lesser(&self) -> (r: Option<Mpz>)
        ensures
            nearest_lesser_post(|n: int| Self::oracle_exact(n), self.value(), (match r {
                    Some(x) => Some(x.value()),
                    None => None,
                })),
    {
        let two = mpz_from_u64(2);
        match mpz_cmp(self, &two) {
            Ordering::Greater => {
                let one = mpz_from_u64(1);
                let mut x = mpz_sub(self, &one);
                loop
                    invariant
                        mpz_val(one) == 1,
                        2 <= mpz_val(x) < mpz_val(*self),
                        forall|k: int|
                            mpz_val(x) < k < mpz_val(*self) && 0 <= k < 0x1_0000_0000_0000_0000
                                ==> !(#[trigger] is_prime_spec(k)),
                    decreases mpz_val(x),
                {
                    if mpz_is_prime(&x) {
                        return Some(x);
                    }
                    proof {
                        lemma_two_is_prime();
                    }
                    x = mpz_sub(&x, &one);
                }
            },
            _ => None,
        }
    }

    fn nearest(&self) -> (r: Mpz)
        ensures
            nearest_post(
                |n: int| Self::oracle_exact(n),
                Self::domain_max(),
                self.value(),
                r.value(),
            ),
    {
        let one = mpz_from_u64(1);
        let mut q = mpz_from_u64(1);
        let ghost bnd: int = if mpz_val(*self) >= 3 {
            mpz_val(*self) - 2
        } else {
            3 - mpz_val(*self)
        };
        loop
            invariant
                mpz_val(*self) >= 0,
                mpz_val(one) == 1,
                1 <= mpz_val(q) <= bnd,
                bnd == (if mpz_val(*self) >= 3 {
                    mpz_val(*self) - 2
                } else {
                    3 - mpz_val(*self)
                }),
                forall|j: int|
                    1 <= j < mpz_val(q) && 0 <= mpz_val(*self) + j < 0x1_0000_0000_0000_0000 ==> !(
                    #[trigger] is_prime_spec(mpz_val(*self) + j)),
                forall|j: int|
                    1 <= j < mpz_val(q) && j < mpz_val(*self) && 0 <= mpz_val(*self) - j
                        < 0x1_0000_0000_0000_0000 ==> !(#[trigger] is_prime_spec(
                        mpz_val(*self) - j,
                    )),
            decreases bnd - mpz_val(q),
        {
            let up = mpz_add(self, &q);
            if mpz_is_prime(&up) {
                return up;
            }
            match mpz_cmp(self, &q) {
                Ordering::Greater => {
                    let down = mpz_sub(self, &q);
                    if mpz_is_prime(&down) {
                        return down;
                    }
                },
                _ => {},
            }
            proof {
                // The radius is bounded before 2 (downward, for v >= 3) or 3
                // (upward, for v <= 2) is reached: both lie in the exact
                // region, are prime, and would have ended the scan.
                lemma_two_is_prime();
                lemma_three_is_prime();
                assert(mpz_val(q) < bnd);
            }
            q = mpz_add(&q, &one);
        }
    }

    fn nt_strength(&self) -> (r: Option<i8>)
        ensures
            strength_post(|n: int| Self::oracle_exact(n), Self::domain_max(), self.value(), r),
    {
        if !mpz_is_prime(self) {
            return None;
        }
        let upper = self.nearest_greater();
        match upper {
            Some(x) => {
                let lower = self.nearest_lesser();
                match lower {
                    Some(y) => {
                        let up_delta = mpz_sub(&x, self);
                        let down_delta = mpz_sub(self, &y);
                        match mpz_cmp(&up_delta, &down_delta) {
                            Ordering::Greater => Some(-1i8),
                            Ordering::Equal => Some(0i8),
                            Ordering::Less => Some(1i8),
                        }
                    },
                    None => None,
                }
            },
            None => None,
        }
    }

    fn is_form(&self, scalar: Mpz, addend: Mpz) -> (r: bool)
        ensures
            form_post(
                |n: int| Self::oracle_exact(n),
                self.value(),
                scalar.value(),
                addend.value(),
                r,
            ),
    {
        match mpz_cmp(&addend, self) {
            Ordering::Less => {
                let diff = mpz_sub(self, &addend);
                let remainder = mpz_rem(&diff, &scalar);
                let zero = mpz_from_u64(0);
                match mpz_cmp(&remainder, &zero) {
                    Ordering::Equal => mpz_is_prime(self),
                    _ => false,
                }
            },
            _ => false,
        }
    }

    fn is_isolated(&self) -> (r: bool)
        ensures
            isolated_post(
                |n: int| Self::oracle_exact(n),
                Self::domain_max(),
                self.value(),
                r,
            ),
    {
        let two = mpz_from_u64(2);
        match mpz_cmp(self, &two) {
            Ordering::Less => false,
            _ => {
                if !mpz_is_prime(self) {
                    return false;
                }
                let below = mpz_sub(self, &two);
                if mpz_is_prime(&below) {
                    return false;
                }
                let above = mpz_add(self, &two);
                if mpz_is_prime(&above) {
                    return false;
                }
                true
            },
        }
    }
}

} // verus!
