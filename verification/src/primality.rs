//! The mathematical notion of primality that all contracts refer to.

use vstd::prelude::*;

verus! {

/// `n` is prime: at least 2, and no integer in `[2, n)` divides it.
pub open spec fn is_prime_spec(n: int) -> bool {
    n >= 2 && forall|d: int| 2 <= d < n ==> #[trigger] (n % d) != 0
}

/// 2 is prime.
pub proof fn lemma_two_is_prime()
    ensures
        is_prime_spec(2),
{
}

/// 3 is prime.
pub proof fn lemma_three_is_prime()
    ensures
        is_prime_spec(3),
{
    assert forall|d: int| 2 <= d < 3 implies #[trigger] (3int % d) != 0 by {
        assert(d == 2);
    }
}

} // verus!
