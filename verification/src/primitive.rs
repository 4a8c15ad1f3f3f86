//! The bounded realization: fixed-width integers.
//!
//! Every step that could cross a type's boundaries is guarded explicitly and
//! turned into an absence result instead of wrapping or trapping.  The
//! signed widths share the same domain model: `in_dom` admits the
//! non-negative range only, matching the conceptually non-negative domain of
//! the data model, whose searches never cross below zero.

use crate::primality::{is_prime_spec, lemma_three_is_prime, lemma_two_is_prime};
use crate::traits::{delta_post, form_post, isolated_post, nearest_greater_post,
    nearest_lesser_post, nearest_post, sophie_post, standard_post,
    strength_post, NTPrimality};
use vstd::arithmetic::div_mod::{lemma_mul_mod_noop_general, lemma_small_mod};
use vstd::arithmetic::mul::lemma_mul_is_associative;
use vstd::arithmetic::power::{
    lemma_pow0, lemma_pow1, lemma_pow_adds, lemma_pow_mod_noop, lemma_pow_multiplies,
    lemma_square_is_pow2, pow,
};
use vstd::prelude::*;

verus! {

/// Relies on `number_theory`'s `NumberTheory::is_prime` for `u64`, which
/// calls `machine_prime::is_prime`, a deterministic primality test correct
/// for every 64-bit integer.
#[verifier::external_body]
fn u64_is_prime(x: u64) -> (r: bool)
    ensures
        r == is_prime_spec(x as int),
{
    number_theory::NumberTheory::is_prime(&x)
}

/// Modular exponentiation by square and multiply: `base^exp mod modulus`.
fn mod_exp(base: u64, exp: u64, modulus: u64) -> (r: u64)
    requires
        2 <= modulus,
    ensures
        r as int == pow(base as int, exp as nat) % (modulus as int),
{
    let m: u128 = modulus as u128;
    let ghost gm: int = m as int;
    let mut b: u128 = base as u128 % m;
    let mut e: u64 = exp;
    let mut acc: u128 = 1;
    proof {
        lemma_pow_mod_noop(base as int, exp as nat, gm);
    }
    while e > 0
        invariant
            2 <= m <= 0xffff_ffff_ffff_ffff,
            gm == m as int,
            b < m,
            acc < m,
            (acc as int * pow(b as int, e as nat)) % gm == pow(base as int, exp as nat) % gm,
        decreases e,
    {
        let ghost b0: int = b as int;
        let ghost acc0: int = acc as int;
        let ghost e0: nat = e as nat;
        let ghost e1: nat = (e / 2) as nat;
        proof {
            assert(b0 * b0 < 0x1_0000_0000_0000_0000_0000_0000_0000_0000 && acc0 * b0
                < 0x1_0000_0000_0000_0000_0000_0000_0000_0000) by (nonlinear_arith)
                requires
                    0 <= acc0 < gm,
                    0 <= b0 < gm,
                    gm <= 0xffff_ffff_ffff_ffff,
            ;
            lemma_square_is_pow2(b0);
            lemma_pow_multiplies(b0, 2, e1);
            lemma_pow_mod_noop(b0 * b0, e1, gm);
        }
        if e % 2 == 1 {
            acc = acc * b % m;
            proof {
                lemma_pow_adds(b0, 1, (2 * e1) as nat);
                lemma_pow1(b0);
                assert(pow(b0, e0) == b0 * pow(b0 * b0, e1));
                lemma_mul_is_associative(acc0, b0, pow(b0 * b0, e1));
                lemma_mul_mod_noop_general(acc0 * b0, pow(b0 * b0, e1), gm);
                lemma_mul_mod_noop_general(acc as int, pow(b0 * b0, e1), gm);
                lemma_mul_mod_noop_general(acc as int, pow((b0 * b0) % gm, e1), gm);
            }
        } else {
            proof {
                lemma_mul_mod_noop_general(acc0, pow(b0 * b0, e1), gm);
                lemma_mul_mod_noop_general(acc0, pow((b0 * b0) % gm, e1), gm);
            }
        }
        b = b * b % m;
        e = e / 2;
    }
    proof {
        lemma_pow0(b as int);
        lemma_small_mod(acc as nat, m as nat);
    }
    acc as u64
}

impl NTPrimality for u64 {
    open spec fn value(&self) -> int {
        *self as int
    }

    open spec fn domain_max() -> Option<int> {
        Some(u64::MAX as int)
    }

    open spec fn oracle_exact(n: int) -> bool {
        true
    }

    fn is_standard(&self) -> (r: bool)
        ensures
            standard_post(|n: int| Self::oracle_exact(n), self.value(), r),
    {
        u64_is_prime(*self)
    }

    fn sophie_safe(&self) -> (r: Option<u64>)
        ensures
            sophie_post(
                |n: int| Self::oracle_exact(n),
                Self::domain_max(),
                self.value(),
                (match r {
                    Some(x) => Some(x.value()),
                    None => None,
                }),
            ),
    {
        let v = *self;
        if !u64_is_prime(v) {
            return None;
        }
        if v > (u64::MAX - 1) / 2 {
            return None;
        }
        let safe = 2 * v + 1;
        if mod_exp(2, 2 * v, safe) == 1 {
            Some(safe)
        } else {
            None
        }
    }

    fn delta(&self, d: u64) -> (r: Option<u64>)
        ensures
            delta_post(
                |n: int| Self::oracle_exact(n),
                Self::domain_max(),
                self.value(),
                d.value(),
                (match r {
                    Some(x) => Some(x.value()),
                    None => None,
                }),
            ),
    {
        let v = *self;
        if !u64_is_prime(v) {
            return None;
        }
        if v > u64::MAX - d {
            return None;
        }
        if u64_is_prime(v + d) {
            return Some(v + d);
        }
        if d > v {
            return None;
        }
        if u64_is_prime(v - d) {
            return Some(v - d);
        }
        Some(0)
    }

    fn nearest_greater(&self) -> (r: Option<u64>)
        ensures
            nearest_greater_post(
                |n: int| Self::oracle_exact(n),
                Self::domain_max(),
                self.value(),
                (match r {
                    Some(x) => Some(x.value()),
                    None => None,
                }),
            ),
    {
        let v = *self;
        let mut x = v;
        loop
            invariant
                v == *self,
                v <= x <= u64::MAX,
                forall|k: int| v < k <= x ==> !(#[trigger] is_prime_spec(k)),
            decreases u64::MAX - x,
        {
            if x == u64::MAX {
                return None;
            }
            x = x + 1;
            if u64_is_prime(x) {
                return Some(x);
            }
        }
    }

    fn nearest_lesser(&self) -> (r: Option<u64>)
        ensures
            nearest_lesser_post(|n: int| Self::oracle_exact(n), self.value(), (match r {
                    Some(x) => Some(x.value()),
                    None => None,
                })),
    {
        let v = *self;
        let mut x = v;
        loop
            invariant
                v == *self,
                x <= v,
                forall|k: int| x <= k < v ==> !(#[trigger] is_prime_spec(k)),
            decreases x,
        {
            if x == 0 {
                return None;
            }
            x = x - 1;
            if u64_is_prime(x) {
                return Some(x);
            }
        }
    }

    fn nearest(&self) -> (r: u64)
        ensures
            nearest_post(
                |n: int| Self::oracle_exact(n),
                Self::domain_max(),
                self.value(),
                r.value(),
            ),
    {
        let v = *self;
        let mut q: u64 = 1;
        loop
            invariant
                v == *self,
                1 <= q < u64::MAX,
                forall|j: int|
                    1 <= j < q && v + j <= u64::MAX ==> !(#[trigger] is_prime_spec(v + j)),
                forall|j: int| 1 <= j < q && j < v ==> !(#[trigger] is_prime_spec(v - j)),
            decreases u64::MAX - q,
        {
            if q <= u64::MAX - v {
                if u64_is_prime(v + q) {
                    return v + q;
                }
            }
            if q < v {
                if u64_is_prime(v - q) {
                    return v - q;
                }
            }
            proof {
                // The radius is bounded before 2 (downward, for v >= 3) or 3
                // (upward, for v <= 2) is reached, since those candidates are
                // prime and would have ended the scan.
                lemma_two_is_prime();
                lemma_three_is_prime();
                if v >= 3 {
                    if q > v - 2 {
                        assert(!is_prime_spec(v - (v - 2)));
                    }
                    assert(q <= v - 2);
                    assert(v - 2 < u64::MAX);
                } else {
                    if q > 3 - v {
                        assert(!is_prime_spec(v + (3 - v)));
                    }
                    assert(q <= 3 - v);
                }
            }
            q = q + 1;
        }
    }

    fn nt_strength(&self) -> (r: Option<i8>)
        ensures
            strength_post(|n: int| Self::oracle_exact(n), Self::domain_max(), self.value(), r),
    {
        let v = *self;
        if !u64_is_prime(v) {
            return None;
        }
        let upper = self.nearest_greater();
        let lower = self.nearest_lesser();
        match (upper, lower) {
            (Some(x), Some(y)) => {
                let up_delta = x - v;
                let down_delta = v - y;
                if up_delta > down_delta {
                    Some(-1i8)
                } else if up_delta == down_delta {
                    Some(0i8)
                } else {
                    Some(1i8)
                }
            },
            _ => None,
        }
    }

    fn is_form(&self, scalar: u64, addend: u64) -> (r: bool)
        ensures
            form_post(
                |n: int| Self::oracle_exact(n),
                self.value(),
                scalar.value(),
                addend.value(),
                r,
            ),
    {
        let v = *self;
        if addend >= v {
            return false;
        }
        if (v - addend) % scalar != 0 {
            return false;
        }
        u64_is_prime(v)
    }

    fn is_isolated(&self) -> (r: bool)
        ensures
            isolated_post(
                |n: int| Self::oracle_exact(n),
                Self::domain_max(),
                self.value(),
                r,
            ),
    {
        let v = *self;
        if v < 2 {
            return false;
        }
        if v > u64::MAX - 2 {
            return false;
        }
        if !u64_is_prime(v) {
            return false;
        }
        if !u64_is_prime(v - 2) && !u64_is_prime(v + 2) {
            return true;
        }
        false
    }
}

/// Relies on `number_theory`'s `NumberTheory::is_prime` for `u8`, which
/// promotes to 32 bits and then calls `machine_prime::is_prime`, a
/// deterministic primality test correct for every 64-bit integer.
#[verifier::external_body]
fn u8_is_prime(x: u8) -> (r: bool)
    ensures
        r == is_prime_spec(x as int),
{
    number_theory::NumberTheory::is_prime(&x)
}

impl NTPrimality for u8 {
    open spec fn value(&self) -> int {
        *self as int
    }

    open spec fn domain_max() -> Option<int> {
        Some(u8::MAX as int)
    }

    open spec fn oracle_exact(n: int) -> bool {
        true
    }

    fn is_standard(&self) -> (r: bool)
        ensures
            standard_post(|n: int| Self::oracle_exact(n), self.value(), r),
    {
        u8_is_prime(*self)
    }

    fn sophie_safe(&self) -> (r: Option<u8>)
        ensures
            sophie_post(
                |n: int| Self::oracle_exact(n),
                Self::domain_max(),
                self.value(),
                (match r {
                    Some(x) => Some(x.value()),
                    None => None,
                }),
            ),
    {
        let v = *self;
        if !u8_is_prime(v) {
            return None;
        }
        if v > (u8::MAX - 1) / 2 {
            return None;
        }
        let safe = 2 * v + 1;
        if mod_exp(2, 2 * (v as u64), safe as u64) == 1 {
            Some(safe)
        } else {
            None
        }
    }

    fn delta(&self, d: u8) -> (r: Option<u8>)
        ensures
            delta_post(
                |n: int| Self::oracle_exact(n),
                Self::domain_max(),
                self.value(),
                d.value(),
                (match r {
                    Some(x) => Some(x.value()),
                    None => None,
                }),
            ),
    {
        let v = *self;
        if !u8_is_prime(v) {
            return None;
        }
        if v > u8::MAX - d {
            return None;
        }
        if u8_is_prime(v + d) {
            return Some(v + d);
        }
        if d > v {
            return None;
        }
        if u8_is_prime(v - d) {
            return Some(v - d);
        }
        Some(0)
    }

    fn nearest_greater(&self) -> (r: Option<u8>)
        ensures
            nearest_greater_post(
                |n: int| Self::oracle_exact(n),
                Self::domain_max(),
                self.value(),
                (match r {
                    Some(x) => Some(x.value()),
                    None => None,
                }),
            ),
    {
        let v = *self;
        let mut x = v;
        loop
            invariant
                v == *self,
                v <= x <= u8::MAX,
                forall|k: int| v < k <= x ==> !(#[trigger] is_prime_spec(k)),
            decreases u8::MAX - x,
        {
            if x == u8::MAX {
                return None;
            }
            x = x + 1;
            if u8_is_prime(x) {
                return Some(x);
            }
        }
    }

    fn nearest_lesser(&self) -> (r: Option<u8>)
        ensures
            nearest_lesser_post(|n: int| Self::oracle_exact(n), self.value(), (match r {
                    Some(x) => Some(x.value()),
                    None => None,
                })),
    {
        let v = *self;
        let mut x = v;
        loop
            invariant
                v == *self,
                x <= v,
                forall|k: int| x <= k < v ==> !(#[trigger] is_prime_spec(k)),
            decreases x,
        {
            if x == 0 {
                return None;
            }
            x = x - 1;
            if u8_is_prime(x) {
                return Some(x);
            }
        }
    }

    fn nearest(&self) -> (r: u8)
        ensures
            nearest_post(
                |n: int| Self::oracle_exact(n),
                Self::domain_max(),
                self.value(),
                r.value(),
            ),
    {
        let v = *self;
        let mut q: u8 = 1;
        loop
            invariant
                v == *self,
                1 <= q < u8::MAX,
                forall|j: int|
                    1 <= j < q && v + j <= u8::MAX ==> !(#[trigger] is_prime_spec(v + j)),
                forall|j: int| 1 <= j < q && j < v ==> !(#[trigger] is_prime_spec(v - j)),
            decreases u8::MAX - q,
        {
            if q <= u8::MAX - v {
                if u8_is_prime(v + q) {
                    return v + q;
                }
            }
            if q < v {
                if u8_is_prime(v - q) {
                    return v - q;
                }
            }
            proof {
                // The radius is bounded before 2 (downward, for v >= 3) or 3
                // (upward, for v <= 2) is reached, since those candidates are
                // prime and would have ended the scan.
                lemma_two_is_prime();
                lemma_three_is_prime();
                if v >= 3 {
                    if q > v - 2 {
                        assert(!is_prime_spec(v - (v - 2)));
                    }
                    assert(q <= v - 2);
                    assert(v - 2 < u8::MAX);
                } else {
                    if q > 3 - v {
                        assert(!is_prime_spec(v + (3 - v)));
                    }
                    assert(q <= 3 - v);
                }
            }
            q = q + 1;
        }
    }

    fn nt_strength(&self) -> (r: Option<i8>)
        ensures
            strength_post(|n: int| Self::oracle_exact(n), Self::domain_max(), self.value(), r),
    {
        let v = *self;
        if !u8_is_prime(v) {
            return None;
        }
        let upper = self.nearest_greater();
        let lower = self.nearest_lesser();
        match (upper, lower) {
            (Some(x), Some(y)) => {
                let up_delta = x - v;
                let down_delta = v - y;
                if up_delta > down_delta {
                    Some(-1i8)
                } else if up_delta == down_delta {
                    Some(0i8)
                } else {
                    Some(1i8)
                }
            },
            _ => None,
        }
    }

    fn is_form(&self, scalar: u8, addend: u8) -> (r: bool)
        ensures
            form_post(
                |n: int| Self::oracle_exact(n),
                self.value(),
                scalar.value(),
                addend.value(),
                r,
            ),
    {
        let v = *self;
        if addend >= v {
            return false;
        }
        if (v - addend) % scalar != 0 {
            return false;
        }
        u8_is_prime(v)
    }

    fn is_isolated(&self) -> (r: bool)
        ensures
            isolated_post(
                |n: int| Self::oracle_exact(n),
                Self::domain_max(),
                self.value(),
                r,
            ),
    {
        let v = *self;
        if v < 2 {
            return false;
        }
        if v > u8::MAX - 2 {
            return false;
        }
        if !u8_is_prime(v) {
            return false;
        }
        if !u8_is_prime(v - 2) && !u8_is_prime(v + 2) {
            return true;
        }
        false
    }
}

/// Relies on `number_theory`'s `NumberTheory::is_prime` for `u16`, which
/// promotes to 32 bits and then calls `machine_prime::is_prime`, a
/// deterministic primality test correct for every 64-bit integer.
#[verifier::external_body]
fn u16_is_prime(x: u16) -> (r: bool)
    ensures
        r == is_prime_spec(x as int),
{
    number_theory::NumberTheory::is_prime(&x)
}

impl NTPrimality for u16 {
    open spec fn value(&self) -> int {
        *self as int
    }

    open spec fn domain_max() -> Option<int> {
        Some(u16::MAX as int)
    }

    open spec fn oracle_exact(n: int) -> bool {
        true
    }

    fn is_standard(&self) -> (r: bool)
        ensures
            standard_post(|n: int| Self::oracle_exact(n), self.value(), r),
    {
        u16_is_prime(*self)
    }

    fn sophie_safe(&self) -> (r: Option<u16>)
        ensures
            sophie_post(
                |n: int| Self::oracle_exact(n),
                Self::domain_max(),
                self.value(),
                (match r {
                    Some(x) => Some(x.value()),
                    None => None,
                }),
            ),
    {
        let v = *self;
        if !u16_is_prime(v) {
            return None;
        }
        if v > (u16::MAX - 1) / 2 {
            return None;
        }
        let safe = 2 * v + 1;
        if mod_exp(2, 2 * (v as u64), safe as u64) == 1 {
            Some(safe)
        } else {
            None
        }
    }

    fn delta(&self, d: u16) -> (r: Option<u16>)
        ensures
            delta_post(
                |n: int| Self::oracle_exact(n),
                Self::domain_max(),
                self.value(),
                d.value(),
                (match r {
                    Some(x) => Some(x.value()),
                    None => None,
                }),
            ),
    {
        let v = *self;
        if !u16_is_prime(v) {
            return None;
        }
        if v > u16::MAX - d {
            return None;
        }
        if u16_is_prime(v + d) {
            return Some(v + d);
        }
        if d > v {
            return None;
        }
        if u16_is_prime(v - d) {
            return Some(v - d);
        }
        Some(0)
    }

    fn nearest_greater(&self) -> (r: Option<u16>)
        ensures
            nearest_greater_post(
                |n: int| Self::oracle_exact(n),
                Self::domain_max(),
                self.value(),
                (match r {
                    Some(x) => Some(x.value()),
                    None => None,
                }),
            ),
    {
        let v = *self;
        let mut x = v;
        loop
            invariant
                v == *self,
                v <= x <= u16::MAX,
                forall|k: int| v < k <= x ==> !(#[trigger] is_prime_spec(k)),
            decreases u16::MAX - x,
        {
            if x == u16::MAX {
                return None;
            }
            x = x + 1;
            if u16_is_prime(x) {
                return Some(x);
            }
        }
    }

    fn nearest_lesser(&self) -> (r: Option<u16>)
        ensures
            nearest_lesser_post(|n: int| Self::oracle_exact(n), self.value(), (match r {
                    Some(x) => Some(x.value()),
                    None => None,
                })),
    {
        let v = *self;
        let mut x = v;
        loop
            invariant
                v == *self,
                x <= v,
                forall|k: int| x <= k < v ==> !(#[trigger] is_prime_spec(k)),
            decreases x,
        {
            if x == 0 {
                return None;
            }
            x = x - 1;
            if u16_is_prime(x) {
                return Some(x);
            }
        }
    }

    fn nearest(&self) -> (r: u16)
        ensures
            nearest_post(
                |n: int| Self::oracle_exact(n),
                Self::domain_max(),
                self.value(),
                r.value(),
            ),
    {
        let v = *self;
        let mut q: u16 = 1;
        loop
            invariant
                v == *self,
                1 <= q < u16::MAX,
                forall|j: int|
                    1 <= j < q && v + j <= u16::MAX ==> !(#[trigger] is_prime_spec(v + j)),
                forall|j: int| 1 <= j < q && j < v ==> !(#[trigger] is_prime_spec(v - j)),
            decreases u16::MAX - q,
        {
            if q <= u16::MAX - v {
                if u16_is_prime(v + q) {
                    return v + q;
                }
            }
            if q < v {
                if u16_is_prime(v - q) {
                    return v - q;
                }
            }
            proof {
                // The radius is bounded before 2 (downward, for v >= 3) or 3
                // (upward, for v <= 2) is reached, since those candidates are
                // prime and would have ended the scan.
                lemma_two_is_prime();
                lemma_three_is_prime();
                if v >= 3 {
                    if q > v - 2 {
                        assert(!is_prime_spec(v - (v - 2)));
                    }
                    assert(q <= v - 2);
                    assert(v - 2 < u16::MAX);
                } else {
                    if q > 3 - v {
                        assert(!is_prime_spec(v + (3 - v)));
                    }
                    assert(q <= 3 - v);
                }
            }
            q = q + 1;
        }
    }

    fn nt_strength(&self) -> (r: Option<i8>)
        ensures
            strength_post(|n: int| Self::oracle_exact(n), Self::domain_max(), self.value(), r),
    {
        let v = *self;
        if !u16_is_prime(v) {
            return None;
        }
        let upper = self.nearest_greater();
        let lower = self.nearest_lesser();
        match (upper, lower) {
            (Some(x), Some(y)) => {
                let up_delta = x - v;
                let down_delta = v - y;
                if up_delta > down_delta {
                    Some(-1i8)
                } else if up_delta == down_delta {
                    Some(0i8)
                } else {
                    Some(1i8)
                }
            },
            _ => None,
        }
    }

    fn is_form(&self, scalar: u16, addend: u16) -> (r: bool)
        ensures
            form_post(
                |n: int| Self::oracle_exact(n),
                self.value(),
                scalar.value(),
                addend.value(),
                r,
            ),
    {
        let v = *self;
        if addend >= v {
            return false;
        }
        if (v - addend) % scalar != 0 {
            return false;
        }
        u16_is_prime(v)
    }

    fn is_isolated(&self) -> (r: bool)
        ensures
            isolated_post(
                |n: int| Self::oracle_exact(n),
                Self::domain_max(),
                self.value(),
                r,
            ),
    {
        let v = *self;
        if v < 2 {
            return false;
        }
        if v > u16::MAX - 2 {
            return false;
        }
        if !u16_is_prime(v) {
            return false;
        }
        if !u16_is_prime(v - 2) && !u16_is_prime(v + 2) {
            return true;
        }
        false
    }
}

/// Relies on `number_theory`'s `NumberTheory::is_prime` for `u32`, which
/// widens to 64 bits and calls `machine_prime::is_prime`, a deterministic
/// primality test correct for every 64-bit integer.
#[verifier::external_body]
fn u32_is_prime(x: u32) -> (r: bool)
    ensures
        r == is_prime_spec(x as int),
{
    number_theory::NumberTheory::is_prime(&x)
}

impl NTPrimality for u32 {
    open spec fn value(&self) -> int {
        *self as int
    }

    open spec fn domain_max() -> Option<int> {
        Some(u32::MAX as int)
    }

    open spec fn oracle_exact(n: int) -> bool {
        true
    }

    fn is_standard(&self) -> (r: bool)
        ensures
            standard_post(|n: int| Self::oracle_exact(n), self.value(), r),
    {
        u32_is_prime(*self)
    }

    fn sophie_safe(&self) -> (r: Option<u32>)
        ensures
            sophie_post(
                |n: int| Self::oracle_exact(n),
                Self::domain_max(),
                self.value(),
                (match r {
                    Some(x) => Some(x.value()),
                    None => None,
                }),
            ),
    {
        let v = *self;
        if !u32_is_prime(v) {
            return None;
        }
        if v > (u32::MAX - 1) / 2 {
            return None;
        }
        let safe = 2 * v + 1;
        if mod_exp(2, 2 * (v as u64), safe as u64) == 1 {
            Some(safe)
        } else {
            None
        }
    }

    fn delta(&self, d: u32) -> (r: Option<u32>)
        ensures
            delta_post(
                |n: int| Self::oracle_exact(n),
                Self::domain_max(),
                self.value(),
                d.value(),
                (match r {
                    Some(x) => Some(x.value()),
                    None => None,
                }),
            ),
    {
        let v = *self;
        if !u32_is_prime(v) {
            return None;
        }
        if v > u32::MAX - d {
            return None;
        }
        if u32_is_prime(v + d) {
            return Some(v + d);
        }
        if d > v {
            return None;
        }
        if u32_is_prime(v - d) {
            return Some(v - d);
        }
        Some(0)
    }

    fn nearest_greater(&self) -> (r: Option<u32>)
        ensures
            nearest_greater_post(
                |n: int| Self::oracle_exact(n),
                Self::domain_max(),
                self.value(),
                (match r {
                    Some(x) => Some(x.value()),
                    None => None,
                }),
            ),
    {
        let v = *self;
        let mut x = v;
        loop
            invariant
                v == *self,
                v <= x <= u32::MAX,
                forall|k: int| v < k <= x ==> !(#[trigger] is_prime_spec(k)),
            decreases u32::MAX - x,
        {
            if x == u32::MAX {
                return None;
            }
            x = x + 1;
            if u32_is_prime(x) {
                return Some(x);
            }
        }
    }

    fn nearest_lesser(&self) -> (r: Option<u32>)
        ensures
            nearest_lesser_post(|n: int| Self::oracle_exact(n), self.value(), (match r {
                    Some(x) => Some(x.value()),
                    None => None,
                })),
    {
        let v = *self;
        let mut x = v;
        loop
            invariant
                v == *self,
                x <= v,
                forall|k: int| x <= k < v ==> !(#[trigger] is_prime_spec(k)),
            decreases x,
        {
            if x == 0 {
                return None;
            }
            x = x - 1;
            if u32_is_prime(x) {
                return Some(x);
            }
        }
    }

    fn nearest(&self) -> (r: u32)
        ensures
            nearest_post(
                |n: int| Self::oracle_exact(n),
                Self::domain_max(),
                self.value(),
                r.value(),
            ),
    {
        let v = *self;
        let mut q: u32 = 1;
        loop
            invariant
                v == *self,
                1 <= q < u32::MAX,
                forall|j: int|
                    1 <= j < q && v + j <= u32::MAX ==> !(#[trigger] is_prime_spec(v + j)),
                forall|j: int| 1 <= j < q && j < v ==> !(#[trigger] is_prime_spec(v - j)),
            decreases u32::MAX - q,
        {
            if q <= u32::MAX - v {
                if u32_is_prime(v + q) {
                    return v + q;
                }
            }
            if q < v {
                if u32_is_prime(v - q) {
                    return v - q;
                }
            }
            proof {
                // The radius is bounded before 2 (downward, for v >= 3) or 3
                // (upward, for v <= 2) is reached, since those candidates are
                // prime and would have ended the scan.
                lemma_two_is_prime();
                lemma_three_is_prime();
                if v >= 3 {
                    if q > v - 2 {
                        assert(!is_prime_spec(v - (v - 2)));
                    }
                    assert(q <= v - 2);
                    assert(v - 2 < u32::MAX);
                } else {
                    if q > 3 - v {
                        assert(!is_prime_spec(v + (3 - v)));
                    }
                    assert(q <= 3 - v);
                }
            }
            q = q + 1;
        }
    }

    fn nt_strength(&self) -> (r: Option<i8>)
        ensures
            strength_post(|n: int| Self::oracle_exact(n), Self::domain_max(), self.value(), r),
    {
        let v = *self;
        if !u32_is_prime(v) {
            return None;
        }
        let upper = self.nearest_greater();
        let lower = self.nearest_lesser();
        match (upper, lower) {
            (Some(x), Some(y)) => {
                let up_delta = x - v;
                let down_delta = v - y;
                if up_delta > down_delta {
                    Some(-1i8)
                } else if up_delta == down_delta {
                    Some(0i8)
                } else {
                    Some(1i8)
                }
            },
            _ => None,
        }
    }

    fn is_form(&self, scalar: u32, addend: u32) -> (r: bool)
        ensures
            form_post(
                |n: int| Self::oracle_exact(n),
                self.value(),
                scalar.value(),
                addend.value(),
                r,
            ),
    {
        let v = *self;
        if addend >= v {
            return false;
        }
        if (v - addend) % scalar != 0 {
            return false;
        }
        u32_is_prime(v)
    }

    fn is_isolated(&self) -> (r: bool)
        ensures
            isolated_post(
                |n: int| Self::oracle_exact(n),
                Self::domain_max(),
                self.value(),
                r,
            ),
    {
        let v = *self;
        if v < 2 {
            return false;
        }
        if v > u32::MAX - 2 {
            return false;
        }
        if !u32_is_prime(v) {
            return false;
        }
        if !u32_is_prime(v - 2) && !u32_is_prime(v + 2) {
            return true;
        }
        false
    }
}

/// Relies on `number_theory`'s `NumberTheory::is_prime` for `usize`, which
/// promotes to 64 bits and calls `machine_prime::is_prime`, a deterministic
/// primality test correct for every 64-bit integer.
#[verifier::external_body]
fn usize_is_prime(x: usize) -> (r: bool)
    ensures
        r == is_prime_spec(x as int),
{
    number_theory::NumberTheory::is_prime(&x)
}

impl NTPrimality for usize {
    open spec fn value(&self) -> int {
        *self as int
    }

    open spec fn domain_max() -> Option<int> {
        Some(usize::MAX as int)
    }

    open spec fn oracle_exact(n: int) -> bool {
        true
    }

    fn is_standard(&self) -> (r: bool)
        ensures
            standard_post(|n: int| Self::oracle_exact(n), self.value(), r),
    {
        usize_is_prime(*self)
    }

    fn sophie_safe(&self) -> (r: Option<usize>)
        ensures
            sophie_post(
                |n: int| Self::oracle_exact(n),
                Self::domain_max(),
                self.value(),
                (match r {
                    Some(x) => Some(x.value()),
                    None => None,
                }),
            ),
    {
        let v = *self;
        if !usize_is_prime(v) {
            return None;
        }
        if v > (usize::MAX - 1) / 2 {
            return None;
        }
        let safe = 2 * v + 1;
        if mod_exp(2, 2 * (v as u64), safe as u64) == 1 {
            Some(safe)
        } else {
            None
        }
    }

    fn delta(&self, d: usize) -> (r: Option<usize>)
        ensures
            delta_post(
                |n: int| Self::oracle_exact(n),
                Self::domain_max(),
                self.value(),
                d.value(),
                (match r {
                    Some(x) => Some(x.value()),
                    None => None,
                }),
            ),
    {
        let v = *self;
        if !usize_is_prime(v) {
            return None;
        }
        if v > usize::MAX - d {
            return None;
        }
        if usize_is_prime(v + d) {
            return Some(v + d);
        }
        if d > v {
            return None;
        }
        if usize_is_prime(v - d) {
            return Some(v - d);
        }
        Some(0)
    }

    fn nearest_greater(&self) -> (r: Option<usize>)
        ensures
            nearest_greater_post(
                |n: int| Self::oracle_exact(n),
                Self::domain_max(),
                self.value(),
                (match r {
                    Some(x) => Some(x.value()),
                    None => None,
                }),
            ),
    {
        let v = *self;
        let mut x = v;
        loop
            invariant
                v == *self,
                v <= x <= usize::MAX,
                forall|k: int| v < k <= x ==> !(#[trigger] is_prime_spec(k)),
            decreases usize::MAX - x,
        {
            if x == usize::MAX {
                return None;
            }
            x = x + 1;
            if usize_is_prime(x) {
                return Some(x);
            }
        }
    }

    fn nearest_lesser(&self) -> (r: Option<usize>)
        ensures
            nearest_lesser_post(|n: int| Self::oracle_exact(n), self.value(), (match r {
                    Some(x) => Some(x.value()),
                    None => None,
                })),
    {
        let v = *self;
        let mut x = v;
        loop
            invariant
                v == *self,
                x <= v,
                forall|k: int| x <= k < v ==> !(#[trigger] is_prime_spec(k)),
            decreases x,
        {
            if x == 0 {
                return None;
            }
            x = x - 1;
            if usize_is_prime(x) {
                return Some(x);
            }
        }
    }

    fn nearest(&self) -> (r: usize)
        ensures
            nearest_post(
                |n: int| Self::oracle_exact(n),
                Self::domain_max(),
                self.value(),
                r.value(),
            ),
    {
        let v = *self;
        let mut q: usize = 1;
        loop
            invariant
                v == *self,
                1 <= q < usize::MAX,
                forall|j: int|
                    1 <= j < q && v + j <= usize::MAX ==> !(#[trigger] is_prime_spec(v + j)),
                forall|j: int| 1 <= j < q && j < v ==> !(#[trigger] is_prime_spec(v - j)),
            decreases usize::MAX - q,
        {
            if q <= usize::MAX - v {
                if usize_is_prime(v + q) {
                    return v + q;
                }
            }
            if q < v {
                if usize_is_prime(v - q) {
                    return v - q;
                }
            }
            proof {
                // The radius is bounded before 2 (downward, for v >= 3) or 3
                // (upward, for v <= 2) is reached, since those candidates are
                // prime and would have ended the scan.
                lemma_two_is_prime();
                lemma_three_is_prime();
                if v >= 3 {
                    if q > v - 2 {
                        assert(!is_prime_spec(v - (v - 2)));
                    }
                    assert(q <= v - 2);
                    assert(v - 2 < usize::MAX);
                } else {
                    if q > 3 - v {
                        assert(!is_prime_spec(v + (3 - v)));
                    }
                    assert(q <= 3 - v);
                }
            }
            q = q + 1;
        }
    }

    fn nt_strength(&self) -> (r: Option<i8>)
        ensures
            strength_post(|n: int| Self::oracle_exact(n), Self::domain_max(), self.value(), r),
    {
        let v = *self;
        if !usize_is_prime(v) {
            return None;
        }
        let upper = self.nearest_greater();
        let lower = self.nearest_lesser();
        match (upper, lower) {
            (Some(x), Some(y)) => {
                let up_delta = x - v;
                let down_delta = v - y;
                if up_delta > down_delta {
                    Some(-1i8)
                } else if up_delta == down_delta {
                    Some(0i8)
                } else {
                    Some(1i8)
                }
            },
            _ => None,
        }
    }

    fn is_form(&self, scalar: usize, addend: usize) -> (r: bool)
        ensures
            form_post(
                |n: int| Self::oracle_exact(n),
                self.value(),
                scalar.value(),
                addend.value(),
                r,
            ),
    {
        let v = *self;
        if addend >= v {
            return false;
        }
        if (v - addend) % scalar != 0 {
            return false;
        }
        usize_is_prime(v)
    }

    fn is_isolated(&self) -> (r: bool)
        ensures
            isolated_post(
                |n: int| Self::oracle_exact(n),
                Self::domain_max(),
                self.value(),
                r,
            ),
    {
        let v = *self;
        if v < 2 {
            return false;
        }
        if v > usize::MAX - 2 {
            return false;
        }
        if !usize_is_prime(v) {
            return false;
        }
        if !usize_is_prime(v - 2) && !usize_is_prime(v + 2) {
            return true;
        }
        false
    }
}

/// Relies on `number_theory`'s `NumberTheory::is_prime` for `i8`, which
/// takes the absolute value (the identity on the non-negative arguments
/// admitted here) and runs the exact unsigned test, ending in
/// `machine_prime::is_prime`.  `abs` would trap on the type's minimum, so
/// negative arguments stay excluded.
#[verifier::external_body]
fn i8_is_prime(x: i8) -> (r: bool)
    requires
        x >= 0,
    ensures
        r == is_prime_spec(x as int),
{
    number_theory::NumberTheory::is_prime(&x)
}

impl NTPrimality for i8 {
    open spec fn value(&self) -> int {
        *self as int
    }

    open spec fn domain_max() -> Option<int> {
        Some(i8::MAX as int)
    }

    open spec fn oracle_exact(n: int) -> bool {
        true
    }

    fn is_standard(&self) -> (r: bool)
        ensures
            standard_post(|n: int| Self::oracle_exact(n), self.value(), r),
    {
        i8_is_prime(*self)
    }

    fn sophie_safe(&self) -> (r: Option<i8>)
        ensures
            sophie_post(
                |n: int| Self::oracle_exact(n),
                Self::domain_max(),
                self.value(),
                (match r {
                    Some(x) => Some(x.value()),
                    None => None,
                }),
            ),
    {
        let v = *self;
        if !i8_is_prime(v) {
            return None;
        }
        if v > (i8::MAX - 1) / 2 {
            return None;
        }
        let safe = 2 * v + 1;
        if mod_exp(2, 2 * (v as u64), safe as u64) == 1 {
            Some(safe)
        } else {
            None
        }
    }

    fn delta(&self, d: i8) -> (r: Option<i8>)
        ensures
            delta_post(
                |n: int| Self::oracle_exact(n),
                Self::domain_max(),
                self.value(),
                d.value(),
                (match r {
                    Some(x) => Some(x.value()),
                    None => None,
                }),
            ),
    {
        let v = *self;
        if !i8_is_prime(v) {
            return None;
        }
        if v > i8::MAX - d {
            return None;
        }
        if i8_is_prime(v + d) {
            return Some(v + d);
        }
        if d > v {
            return None;
        }
        if i8_is_prime(v - d) {
            return Some(v - d);
        }
        Some(0)
    }

    fn nearest_greater(&self) -> (r: Option<i8>)
        ensures
            nearest_greater_post(
                |n: int| Self::oracle_exact(n),
                Self::domain_max(),
                self.value(),
                (match r {
                    Some(x) => Some(x.value()),
                    None => None,
                }),
            ),
    {
        let v = *self;
        let mut x = v;
        loop
            invariant
                v == *self,
                0 <= v,
                v <= x <= i8::MAX,
                forall|k: int| v < k <= x ==> !(#[trigger] is_prime_spec(k)),
            decreases i8::MAX - x,
        {
            if x == i8::MAX {
                return None;
            }
            x = x + 1;
            if i8_is_prime(x) {
                return Some(x);
            }
        }
    }

    fn nearest_lesser(&self) -> (r: Option<i8>)
        ensures
            nearest_lesser_post(|n: int| Self::oracle_exact(n), self.value(), (match r {
                    Some(x) => Some(x.value()),
                    None => None,
                })),
    {
        let v = *self;
        let mut x = v;
        loop
            invariant
                v == *self,
                0 <= x <= v,
                forall|k: int| x <= k < v ==> !(#[trigger] is_prime_spec(k)),
            decreases x,
        {
            if x == 0 {
                return None;
            }
            x = x - 1;
            if i8_is_prime(x) {
                return Some(x);
            }
        }
    }

    fn nearest(&self) -> (r: i8)
        ensures
            nearest_post(
                |n: int| Self::oracle_exact(n),
                Self::domain_max(),
                self.value(),
                r.value(),
            ),
    {
        let v = *self;
        let mut q: i8 = 1;
        loop
            invariant
                v == *self,
                0 <= v,
                1 <= q < i8::MAX,
                forall|j: int|
                    1 <= j < q && v + j <= i8::MAX ==> !(#[trigger] is_prime_spec(v + j)),
                forall|j: int| 1 <= j < q && j < v ==> !(#[trigger] is_prime_spec(v - j)),
            decreases i8::MAX - q,
        {
            if q <= i8::MAX - v {
                if i8_is_prime(v + q) {
                    return v + q;
                }
            }
            if q < v {
                if i8_is_prime(v - q) {
                    return v - q;
                }
            }
            proof {
                // The radius is bounded before 2 (downward, for v >= 3) or 3
                // (upward, for v <= 2) is reached, since those candidates are
                // prime and would have ended the scan.
                lemma_two_is_prime();
                lemma_three_is_prime();
                if v >= 3 {
                    if q > v - 2 {
                        assert(!is_prime_spec(v - (v - 2)));
                    }
                    assert(q <= v - 2);
                    assert(v - 2 < i8::MAX);
                } else {
                    if q > 3 - v {
                        assert(!is_prime_spec(v + (3 - v)));
                    }
                    assert(q <= 3 - v);
                }
            }
            q = q + 1;
        }
    }

    fn nt_strength(&self) -> (r: Option<i8>)
        ensures
            strength_post(|n: int| Self::oracle_exact(n), Self::domain_max(), self.value(), r),
    {
        let v = *self;
        if !i8_is_prime(v) {
            return None;
        }
        let upper = self.nearest_greater();
        let lower = self.nearest_lesser();
        match (upper, lower) {
            (Some(x), Some(y)) => {
                let up_delta = x - v;
                let down_delta = v - y;
                if up_delta > down_delta {
                    Some(-1i8)
                } else if up_delta == down_delta {
                    Some(0i8)
                } else {
                    Some(1i8)
                }
            },
            _ => None,
        }
    }

    fn is_form(&self, scalar: i8, addend: i8) -> (r: bool)
        ensures
            form_post(
                |n: int| Self::oracle_exact(n),
                self.value(),
                scalar.value(),
                addend.value(),
                r,
            ),
    {
        let v = *self;
        if addend >= v {
            return false;
        }
        if (v - addend) % scalar != 0 {
            return false;
        }
        i8_is_prime(v)
    }

    fn is_isolated(&self) -> (r: bool)
        ensures
            isolated_post(
                |n: int| Self::oracle_exact(n),
                Self::domain_max(),
                self.value(),
                r,
            ),
    {
        let v = *self;
        if v < 2 {
            return false;
        }
        if v > i8::MAX - 2 {
            return false;
        }
        if !i8_is_prime(v) {
            return false;
        }
        if !i8_is_prime(v - 2) && !i8_is_prime(v + 2) {
            return true;
        }
        false
    }
}

/// Relies on `number_theory`'s `NumberTheory::is_prime` for `i16`, which
/// takes the absolute value (the identity on the non-negative arguments
/// admitted here) and runs the exact unsigned test, ending in
/// `machine_prime::is_prime`.  `abs` would trap on the type's minimum, so
/// negative arguments stay excluded.
#[verifier::external_body]
fn i16_is_prime(x: i16) -> (r: bool)
    requires
        x >= 0,
    ensures
        r == is_prime_spec(x as int),
{
    number_theory::NumberTheory::is_prime(&x)
}

impl NTPrimality for i16 {
    open spec fn value(&self) -> int {
        *self as int
    }

    open spec fn domain_max() -> Option<int> {
        Some(i16::MAX as int)
    }

    open spec fn oracle_exact(n: int) -> bool {
        true
    }

    fn is_standard(&self) -> (r: bool)
        ensures
            standard_post(|n: int| Self::oracle_exact(n), self.value(), r),
    {
        i16_is_prime(*self)
    }

    fn sophie_safe(&self) -> (r: Option<i16>)
        ensures
            sophie_post(
                |n: int| Self::oracle_exact(n),
                Self::domain_max(),
                self.value(),
                (match r {
                    Some(x) => Some(x.value()),
                    None => None,
                }),
            ),
    {
        let v = *self;
        if !i16_is_prime(v) {
            return None;
        }
        if v > (i16::MAX - 1) / 2 {
            return None;
        }
        let safe = 2 * v + 1;
        if mod_exp(2, 2 * (v as u64), safe as u64) == 1 {
            Some(safe)
        } else {
            None
        }
    }

    fn delta(&self, d: i16) -> (r: Option<i16>)
        ensures
            delta_post(
                |n: int| Self::oracle_exact(n),
                Self::domain_max(),
                self.value(),
                d.value(),
                (match r {
                    Some(x) => Some(x.value()),
                    None => None,
                }),
            ),
    {
        let v = *self;
        if !i16_is_prime(v) {
            return None;
        }
        if v > i16::MAX - d {
            return None;
        }
        if i16_is_prime(v + d) {
            return Some(v + d);
        }
        if d > v {
            return None;
        }
        if i16_is_prime(v - d) {
            return Some(v - d);
        }
        Some(0)
    }

    fn nearest_greater(&self) -> (r: Option<i16>)
        ensures
            nearest_greater_post(
                |n: int| Self::oracle_exact(n),
                Self::domain_max(),
                self.value(),
                (match r {
                    Some(x) => Some(x.value()),
                    None => None,
                }),
            ),
    {
        let v = *self;
        let mut x = v;
        loop
            invariant
                v == *self,
                0 <= v,
                v <= x <= i16::MAX,
                forall|k: int| v < k <= x ==> !(#[trigger] is_prime_spec(k)),
            decreases i16::MAX - x,
        {
            if x == i16::MAX {
                return None;
            }
            x = x + 1;
            if i16_is_prime(x) {
                return Some(x);
            }
        }
    }

    fn nearest_lesser(&self) -> (r: Option<i16>)
        ensures
            nearest_lesser_post(|n: int| Self::oracle_exact(n), self.value(), (match r {
                    Some(x) => Some(x.value()),
                    None => None,
                })),
    {
        let v = *self;
        let mut x = v;
        loop
            invariant
                v == *self,
                0 <= x <= v,
                forall|k: int| x <= k < v ==> !(#[trigger] is_prime_spec(k)),
            decreases x,
        {
            if x == 0 {
                return None;
            }
            x = x - 1;
            if i16_is_prime(x) {
                return Some(x);
            }
        }
    }

    fn nearest(&self) -> (r: i16)
        ensures
            nearest_post(
                |n: int| Self::oracle_exact(n),
                Self::domain_max(),
                self.value(),
                r.value(),
            ),
    {
        let v = *self;
        let mut q: i16 = 1;
        loop
            invariant
                v == *self,
                0 <= v,
                1 <= q < i16::MAX,
                forall|j: int|
                    1 <= j < q && v + j <= i16::MAX ==> !(#[trigger] is_prime_spec(v + j)),
                forall|j: int| 1 <= j < q && j < v ==> !(#[trigger] is_prime_spec(v - j)),
            decreases i16::MAX - q,
        {
            if q <= i16::MAX - v {
                if i16_is_prime(v + q) {
                    return v + q;
                }
            }
            if q < v {
                if i16_is_prime(v - q) {
                    return v - q;
                }
            }
            proof {
                // The radius is bounded before 2 (downward, for v >= 3) or 3
                // (upward, for v <= 2) is reached, since those candidates are
                // prime and would have ended the scan.
                lemma_two_is_prime();
                lemma_three_is_prime();
                if v >= 3 {
                    if q > v - 2 {
                        assert(!is_prime_spec(v - (v - 2)));
                    }
                    assert(q <= v - 2);
                    assert(v - 2 < i16::MAX);
                } else {
                    if q > 3 - v {
                        assert(!is_prime_spec(v + (3 - v)));
                    }
                    assert(q <= 3 - v);
                }
            }
            q = q + 1;
        }
    }

    fn nt_strength(&self) -> (r: Option<i8>)
        ensures
            strength_post(|n: int| Self::oracle_exact(n), Self::domain_max(), self.value(), r),
    {
        let v = *self;
        if !i16_is_prime(v) {
            return None;
        }
        let upper = self.nearest_greater();
        let lower = self.nearest_lesser();
        match (upper, lower) {
            (Some(x), Some(y)) => {
                let up_delta = x - v;
                let down_delta = v - y;
                if up_delta > down_delta {
                    Some(-1i8)
                } else if up_delta == down_delta {
                    Some(0i8)
                } else {
                    Some(1i8)
                }
            },
            _ => None,
        }
    }

    fn is_form(&self, scalar: i16, addend: i16) -> (r: bool)
        ensures
            form_post(
                |n: int| Self::oracle_exact(n),
                self.value(),
                scalar.value(),
                addend.value(),
                r,
            ),
    {
        let v = *self;
        if addend >= v {
            return false;
        }
        if (v - addend) % scalar != 0 {
            return false;
        }
        i16_is_prime(v)
    }

    fn is_isolated(&self) -> (r: bool)
        ensures
            isolated_post(
                |n: int| Self::oracle_exact(n),
                Self::domain_max(),
                self.value(),
                r,
            ),
    {
        let v = *self;
        if v < 2 {
            return false;
        }
        if v > i16::MAX - 2 {
            return false;
        }
        if !i16_is_prime(v) {
            return false;
        }
        if !i16_is_prime(v - 2) && !i16_is_prime(v + 2) {
            return true;
        }
        false
    }
}

/// Relies on `number_theory`'s `NumberTheory::is_prime` for `i32`, which
/// takes the absolute value (the identity on the non-negative arguments
/// admitted here) and runs the exact unsigned test, ending in
/// `machine_prime::is_prime`.  `abs` would trap on the type's minimum, so
/// negative arguments stay excluded.
#[verifier::external_body]
fn i32_is_prime(x: i32) -> (r: bool)
    requires
        x >= 0,
    ensures
        r == is_prime_spec(x as int),
{
    number_theory::NumberTheory::is_prime(&x)
}

impl NTPrimality for i32 {
    open spec fn value(&self) -> int {
        *self as int
    }

    open spec fn domain_max() -> Option<int> {
        Some(i32::MAX as int)
    }

    open spec fn oracle_exact(n: int) -> bool {
        true
    }

    fn is_standard(&self) -> (r: bool)
        ensures
            standard_post(|n: int| Self::oracle_exact(n), self.value(), r),
    {
        i32_is_prime(*self)
    }

    fn sophie_safe(&self) -> (r: Option<i32>)
        ensures
            sophie_post(
                |n: int| Self::oracle_exact(n),
                Self::domain_max(),
                self.value(),
                (match r {
                    Some(x) => Some(x.value()),
                    None => None,
                }),
            ),
    {
        let v = *self;
        if !i32_is_prime(v) {
            return None;
        }
        if v > (i32::MAX - 1) / 2 {
            return None;
        }
        let safe = 2 * v + 1;
        if mod_exp(2, 2 * (v as u64), safe as u64) == 1 {
            Some(safe)
        } else {
            None
        }
    }

    fn delta(&self, d: i32) -> (r: Option<i32>)
        ensures
            delta_post(
                |n: int| Self::oracle_exact(n),
                Self::domain_max(),
                self.value(),
                d.value(),
                (match r {
                    Some(x) => Some(x.value()),
                    None => None,
                }),
            ),
    {
        let v = *self;
        if !i32_is_prime(v) {
            return None;
        }
        if v > i32::MAX - d {
            return None;
        }
        if i32_is_prime(v + d) {
            return Some(v + d);
        }
        if d > v {
            return None;
        }
        if i32_is_prime(v - d) {
            return Some(v - d);
        }
        Some(0)
    }

    fn nearest_greater(&self) -> (r: Option<i32>)
        ensures
            nearest_greater_post(
                |n: int| Self::oracle_exact(n),
                Self::domain_max(),
                self.value(),
                (match r {
                    Some(x) => Some(x.value()),
                    None => None,
                }),
            ),
    {
        let v = *self;
        let mut x = v;
        loop
            invariant
                v == *self,
                0 <= v,
                v <= x <= i32::MAX,
                forall|k: int| v < k <= x ==> !(#[trigger] is_prime_spec(k)),
            decreases i32::MAX - x,
        {
            if x == i32::MAX {
                return None;
            }
            x = x + 1;
            if i32_is_prime(x) {
                return Some(x);
            }
        }
    }

    fn nearest_lesser(&self) -> (r: Option<i32>)
        ensures
            nearest_lesser_post(|n: int| Self::oracle_exact(n), self.value(), (match r {
                    Some(x) => Some(x.value()),
                    None => None,
                })),
    {
        let v = *self;
        let mut x = v;
        loop
            invariant
                v == *self,
                0 <= x <= v,
                forall|k: int| x <= k < v ==> !(#[trigger] is_prime_spec(k)),
            decreases x,
        {
            if x == 0 {
                return None;
            }
            x = x - 1;
            if i32_is_prime(x) {
                return Some(x);
            }
        }
    }

    fn nearest(&self) -> (r: i32)
        ensures
            nearest_post(
                |n: int| Self::oracle_exact(n),
                Self::domain_max(),
                self.value(),
                r.value(),
            ),
    {
        let v = *self;
        let mut q: i32 = 1;
        loop
            invariant
                v == *self,
                0 <= v,
                1 <= q < i32::MAX,
                forall|j: int|
                    1 <= j < q && v + j <= i32::MAX ==> !(#[trigger] is_prime_spec(v + j)),
                forall|j: int| 1 <= j < q && j < v ==> !(#[trigger] is_prime_spec(v - j)),
            decreases i32::MAX - q,
        {
            if q <= i32::MAX - v {
                if i32_is_prime(v + q) {
                    return v + q;
                }
            }
            if q < v {
                if i32_is_prime(v - q) {
                    return v - q;
                }
            }
            proof {
                // The radius is bounded before 2 (downward, for v >= 3) or 3
                // (upward, for v <= 2) is reached, since those candidates are
                // prime and would have ended the scan.
                lemma_two_is_prime();
                lemma_three_is_prime();
                if v >= 3 {
                    if q > v - 2 {
                        assert(!is_prime_spec(v - (v - 2)));
                    }
                    assert(q <= v - 2);
                    assert(v - 2 < i32::MAX);
                } else {
                    if q > 3 - v {
                        assert(!is_prime_spec(v + (3 - v)));
                    }
                    assert(q <= 3 - v);
                }
            }
            q = q + 1;
        }
    }

    fn nt_strength(&self) -> (r: Option<i8>)
        ensures
            strength_post(|n: int| Self::oracle_exact(n), Self::domain_max(), self.value(), r),
    {
        let v = *self;
        if !i32_is_prime(v) {
            return None;
        }
        let upper = self.nearest_greater();
        let lower = self.nearest_lesser();
        match (upper, lower) {
            (Some(x), Some(y)) => {
                let up_delta = x - v;
                let down_delta = v - y;
                if up_delta > down_delta {
                    Some(-1i8)
                } else if up_delta == down_delta {
                    Some(0i8)
                } else {
                    Some(1i8)
                }
            },
            _ => None,
        }
    }

    fn is_form(&self, scalar: i32, addend: i32) -> (r: bool)
        ensures
            form_post(
                |n: int| Self::oracle_exact(n),
                self.value(),
                scalar.value(),
                addend.value(),
                r,
            ),
    {
        let v = *self;
        if addend >= v {
            return false;
        }
        if (v - addend) % scalar != 0 {
            return false;
        }
        i32_is_prime(v)
    }

    fn is_isolated(&self) -> (r: bool)
        ensures
            isolated_post(
                |n: int| Self::oracle_exact(n),
                Self::domain_max(),
                self.value(),
                r,
            ),
    {
        let v = *self;
        if v < 2 {
            return false;
        }
        if v > i32::MAX - 2 {
            return false;
        }
        if !i32_is_prime(v) {
            return false;
        }
        if !i32_is_prime(v - 2) && !i32_is_prime(v + 2) {
            return true;
        }
        false
    }
}

/// Relies on `number_theory`'s `NumberTheory::is_prime` for `i64`, which
/// takes the absolute value (the identity on the non-negative arguments
/// admitted here) and runs the exact unsigned test, ending in
/// `machine_prime::is_prime`.  `abs` would trap on the type's minimum, so
/// negative arguments stay excluded.
#[verifier::external_body]
fn i64_is_prime(x: i64) -> (r: bool)
    requires
        x >= 0,
    ensures
        r == is_prime_spec(x as int),
{
    number_theory::NumberTheory::is_prime(&x)
}

impl NTPrimality for i64 {
    open spec fn value(&self) -> int {
        *self as int
    }

    open spec fn domain_max() -> Option<int> {
        Some(i64::MAX as int)
    }

    open spec fn oracle_exact(n: int) -> bool {
        true
    }

    fn is_standard(&self) -> (r: bool)
        ensures
            standard_post(|n: int| Self::oracle_exact(n), self.value(), r),
    {
        i64_is_prime(*self)
    }

    fn sophie_safe(&self) -> (r: Option<i64>)
        ensures
            sophie_post(
                |n: int| Self::oracle_exact(n),
                Self::domain_max(),
                self.value(),
                (match r {
                    Some(x) => Some(x.value()),
                    None => None,
                }),
            ),
    {
        let v = *self;
        if !i64_is_prime(v) {
            return None;
        }
        if v > (i64::MAX - 1) / 2 {
            return None;
        }
        let safe = 2 * v + 1;
        if mod_exp(2, 2 * (v as u64), safe as u64) == 1 {
            Some(safe)
        } else {
            None
        }
    }

    fn delta(&self, d: i64) -> (r: Option<i64>)
        ensures
            delta_post(
                |n: int| Self::oracle_exact(n),
                Self::domain_max(),
                self.value(),
                d.value(),
                (match r {
                    Some(x) => Some(x.value()),
                    None => None,
                }),
            ),
    {
        let v = *self;
        if !i64_is_prime(v) {
            return None;
        }
        if v > i64::MAX - d {
            return None;
        }
        if i64_is_prime(v + d) {
            return Some(v + d);
        }
        if d > v {
            return None;
        }
        if i64_is_prime(v - d) {
            return Some(v - d);
        }
        Some(0)
    }

    fn nearest_greater(&self) -> (r: Option<i64>)
        ensures
            nearest_greater_post(
                |n: int| Self::oracle_exact(n),
                Self::domain_max(),
                self.value(),
                (match r {
                    Some(x) => Some(x.value()),
                    None => None,
                }),
            ),
    {
        let v = *self;
        let mut x = v;
        loop
            invariant
                v == *self,
                0 <= v,
                v <= x <= i64::MAX,
                forall|k: int| v < k <= x ==> !(#[trigger] is_prime_spec(k)),
            decreases i64::MAX - x,
        {
            if x == i64::MAX {
                return None;
            }
            x = x + 1;
            if i64_is_prime(x) {
                return Some(x);
            }
        }
    }

    fn nearest_lesser(&self) -> (r: Option<i64>)
        ensures
            nearest_lesser_post(|n: int| Self::oracle_exact(n), self.value(), (match r {
                    Some(x) => Some(x.value()),
                    None => None,
                })),
    {
        let v = *self;
        let mut x = v;
        loop
            invariant
                v == *self,
                0 <= x <= v,
                forall|k: int| x <= k < v ==> !(#[trigger] is_prime_spec(k)),
            decreases x,
        {
            if x == 0 {
                return None;
            }
            x = x - 1;
            if i64_is_prime(x) {
                return Some(x);
            }
        }
    }

    fn nearest(&self) -> (r: i64)
        ensures
            nearest_post(
                |n: int| Self::oracle_exact(n),
                Self::domain_max(),
                self.value(),
                r.value(),
            ),
    {
        let v = *self;
        let mut q: i64 = 1;
        loop
            invariant
                v == *self,
                0 <= v,
                1 <= q < i64::MAX,
                forall|j: int|
                    1 <= j < q && v + j <= i64::MAX ==> !(#[trigger] is_prime_spec(v + j)),
                forall|j: int| 1 <= j < q && j < v ==> !(#[trigger] is_prime_spec(v - j)),
            decreases i64::MAX - q,
        {
            if q <= i64::MAX - v {
                if i64_is_prime(v + q) {
                    return v + q;
                }
            }
            if q < v {
                if i64_is_prime(v - q) {
                    return v - q;
                }
            }
            proof {
                // The radius is bounded before 2 (downward, for v >= 3) or 3
                // (upward, for v <= 2) is reached, since those candidates are
                // prime and would have ended the scan.
                lemma_two_is_prime();
                lemma_three_is_prime();
                if v >= 3 {
                    if q > v - 2 {
                        assert(!is_prime_spec(v - (v - 2)));
                    }
                    assert(q <= v - 2);
                    assert(v - 2 < i64::MAX);
                } else {
                    if q > 3 - v {
                        assert(!is_prime_spec(v + (3 - v)));
                    }
                    assert(q <= 3 - v);
                }
            }
            q = q + 1;
        }
    }

    fn nt_strength(&self) -> (r: Option<i8>)
        ensures
            strength_post(|n: int| Self::oracle_exact(n), Self::domain_max(), self.value(), r),
    {
        let v = *self;
        if !i64_is_prime(v) {
            return None;
        }
        let upper = self.nearest_greater();
        let lower = self.nearest_lesser();
        match (upper, lower) {
            (Some(x), Some(y)) => {
                let up_delta = x - v;
                let down_delta = v - y;
                if up_delta > down_delta {
                    Some(-1i8)
                } else if up_delta == down_delta {
                    Some(0i8)
                } else {
                    Some(1i8)
                }
            },
            _ => None,
        }
    }

    fn is_form(&self, scalar: i64, addend: i64) -> (r: bool)
        ensures
            form_post(
                |n: int| Self::oracle_exact(n),
                self.value(),
                scalar.value(),
                addend.value(),
                r,
            ),
    {
        let v = *self;
        if addend >= v {
            return false;
        }
        if (v - addend) % scalar != 0 {
            return false;
        }
        i64_is_prime(v)
    }

    fn is_isolated(&self) -> (r: bool)
        ensures
            isolated_post(
                |n: int| Self::oracle_exact(n),
                Self::domain_max(),
                self.value(),
                r,
            ),
    {
        let v = *self;
        if v < 2 {
            return false;
        }
        if v > i64::MAX - 2 {
            return false;
        }
        if !i64_is_prime(v) {
            return false;
        }
        if !i64_is_prime(v - 2) && !i64_is_prime(v + 2) {
            return true;
        }
        false
    }
}

/// Relies on `number_theory`'s `NumberTheory::is_prime` for `isize`, which
/// takes the absolute value (the identity on the non-negative arguments
/// admitted here) and runs the exact unsigned test, ending in
/// `machine_prime::is_prime`.  `abs` would trap on the type's minimum, so
/// negative arguments stay excluded.
#[verifier::external_body]
fn isize_is_prime(x: isize) -> (r: bool)
    requires
        x >= 0,
    ensures
        r == is_prime_spec(x as int),
{
    number_theory::NumberTheory::is_prime(&x)
}

impl NTPrimality for isize {
    open spec fn value(&self) -> int {
        *self as int
    }

    open spec fn domain_max() -> Option<int> {
        Some(isize::MAX as int)
    }

    open spec fn oracle_exact(n: int) -> bool {
        true
    }

    fn is_standard(&self) -> (r: bool)
        ensures
            standard_post(|n: int| Self::oracle_exact(n), self.value(), r),
    {
        isize_is_prime(*self)
    }

    fn sophie_safe(&self) -> (r: Option<isize>)
        ensures
            sophie_post(
                |n: int| Self::oracle_exact(n),
                Self::domain_max(),
                self.value(),
                (match r {
                    Some(x) => Some(x.value()),
                    None => None,
                }),
            ),
    {
        let v = *self;
        if !isize_is_prime(v) {
            return None;
        }
        if v > (isize::MAX - 1) / 2 {
            return None;
        }
        let safe = 2 * v + 1;
        if mod_exp(2, 2 * (v as u64), safe as u64) == 1 {
            Some(safe)
        } else {
            None
        }
    }

    fn delta(&self, d: isize) -> (r: Option<isize>)
        ensures
            delta_post(
                |n: int| Self::oracle_exact(n),
                Self::domain_max(),
                self.value(),
                d.value(),
                (match r {
                    Some(x) => Some(x.value()),
                    None => None,
                }),
            ),
    {
        let v = *self;
        if !isize_is_prime(v) {
            return None;
        }
        if v > isize::MAX - d {
            return None;
        }
        if isize_is_prime(v + d) {
            return Some(v + d);
        }
        if d > v {
            return None;
        }
        if isize_is_prime(v - d) {
            return Some(v - d);
        }
        Some(0)
    }

    fn nearest_greater(&self) -> (r: Option<isize>)
        ensures
            nearest_greater_post(
                |n: int| Self::oracle_exact(n),
                Self::domain_max(),
                self.value(),
                (match r {
                    Some(x) => Some(x.value()),
                    None => None,
                }),
            ),
    {
        let v = *self;
        let mut x = v;
        loop
            invariant
                v == *self,
                0 <= v,
                v <= x <= isize::MAX,
                forall|k: int| v < k <= x ==> !(#[trigger] is_prime_spec(k)),
            decreases isize::MAX - x,
        {
            if x == isize::MAX {
                return None;
            }
            x = x + 1;
            if isize_is_prime(x) {
                return Some(x);
            }
        }
    }

    fn nearest_lesser(&self) -> (r: Option<isize>)
        ensures
            nearest_lesser_post(|n: int| Self::oracle_exact(n), self.value(), (match r {
                    Some(x) => Some(x.value()),
                    None => None,
                })),
    {
        let v = *self;
        let mut x = v;
        loop
            invariant
                v == *self,
                0 <= x <= v,
                forall|k: int| x <= k < v ==> !(#[trigger] is_prime_spec(k)),
            decreases x,
        {
            if x == 0 {
                return None;
            }
            x = x - 1;
            if isize_is_prime(x) {
                return Some(x);
            }
        }
    }

    fn nearest(&self) -> (r: isize)
        ensures
            nearest_post(
                |n: int| Self::oracle_exact(n),
                Self::domain_max(),
                self.value(),
                r.value(),
            ),
    {
        let v = *self;
        let mut q: isize = 1;
        loop
            invariant
                v == *self,
                0 <= v,
                1 <= q < isize::MAX,
                forall|j: int|
                    1 <= j < q && v + j <= isize::MAX ==> !(#[trigger] is_prime_spec(v + j)),
                forall|j: int| 1 <= j < q && j < v ==> !(#[trigger] is_prime_spec(v - j)),
            decreases isize::MAX - q,
        {
            if q <= isize::MAX - v {
                if isize_is_prime(v + q) {
                    return v + q;
                }
            }
            if q < v {
                if isize_is_prime(v - q) {
                    return v - q;
                }
            }
            proof {
                // The radius is bounded before 2 (downward, for v >= 3) or 3
                // (upward, for v <= 2) is reached, since those candidates are
                // prime and would have ended the scan.
                lemma_two_is_prime();
                lemma_three_is_prime();
                if v >= 3 {
                    if q > v - 2 {
                        assert(!is_prime_spec(v - (v - 2)));
                    }
                    assert(q <= v - 2);
                    assert(v - 2 < isize::MAX);
                } else {
                    if q > 3 - v {
                        assert(!is_prime_spec(v + (3 - v)));
                    }
                    assert(q <= 3 - v);
                }
            }
            q = q + 1;
        }
    }

    fn nt_strength(&self) -> (r: Option<i8>)
        ensures
            strength_post(|n: int| Self::oracle_exact(n), Self::domain_max(), self.value(), r),
    {
        let v = *self;
        if !isize_is_prime(v) {
            return None;
        }
        let upper = self.nearest_greater();
        let lower = self.nearest_lesser();
        match (upper, lower) {
            (Some(x), Some(y)) => {
                let up_delta = x - v;
                let down_delta = v - y;
                if up_delta > down_delta {
                    Some(-1i8)
                } else if up_delta == down_delta {
                    Some(0i8)
                } else {
                    Some(1i8)
                }
            },
            _ => None,
        }
    }

    fn is_form(&self, scalar: isize, addend: isize) -> (r: bool)
        ensures
            form_post(
                |n: int| Self::oracle_exact(n),
                self.value(),
                scalar.value(),
                addend.value(),
                r,
            ),
    {
        let v = *self;
        if addend >= v {
            return false;
        }
        if (v - addend) % scalar != 0 {
            return false;
        }
        isize_is_prime(v)
    }

    fn is_isolated(&self) -> (r: bool)
        ensures
            isolated_post(
                |n: int| Self::oracle_exact(n),
                Self::domain_max(),
                self.value(),
                r,
            ),
    {
        let v = *self;
        if v < 2 {
            return false;
        }
        if v > isize::MAX - 2 {
            return false;
        }
        if !isize_is_prime(v) {
            return false;
        }
        if !isize_is_prime(v - 2) && !isize_is_prime(v + 2) {
            return true;
        }
        false
    }
}

} // verus!
