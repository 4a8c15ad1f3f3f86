//! Prime-searching predicates over prime-testable integer domains.
//!
//! The `NTPrimality` trait equips an ordered integer domain with a family
//! of prime-search operations: primality, Sophie Germain pairing, primes at a
//! fixed offset, nearest-prime scans in either direction, a biased symmetric
//! nearest-prime search, a strength classification, primes of a linear form,
//! and isolated primes.  It is realized twice: for the fixed-width integer
//! types (bounded domains; the signed widths on their non-negative range)
//! and for `number_theory`'s arbitrary-precision `Mpz` (an unbounded
//! domain).

pub mod laws;
mod mpznt;
pub mod primality;
mod primitive;
pub mod traits;

pub use crate::primality::is_prime_spec;
pub use crate::traits::NTPrimality;
