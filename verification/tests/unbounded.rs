//! The unbounded realization, exercised on arbitrary-precision values.

use number_theory::Mpz;
use nt_primes::NTPrimality;

#[test]
fn standard_on_arbitrary_precision() {
    assert!(Mpz::from(97u64).is_standard());
    assert!(!Mpz::from(100u64).is_standard());
    assert!(!Mpz::from(0u64).is_standard());
    assert!(!Mpz::from(1u64).is_standard());
}

#[test]
fn mpz_delta_finds_upward_twin() {
    let twin = Mpz::from(3u64).delta(Mpz::from(2u64)).unwrap();
    assert_eq!(twin, Mpz::from(5u64));
}

#[test]
fn mpz_delta_falls_back_downward() {
    let down = Mpz::from(7u64).delta(Mpz::from(2u64)).unwrap();
    assert_eq!(down, Mpz::from(5u64));
}

#[test]
fn delta_zero_sentinel_and_absences() {
    assert_eq!(Mpz::from(7u64).delta(Mpz::from(1u64)), Some(Mpz::from(0u64)));
    assert_eq!(Mpz::from(8u64).delta(Mpz::from(1u64)), None);
    assert_eq!(Mpz::from(3u64).delta(Mpz::from(5u64)), None);
}

#[test]
fn nearest_greater_large_point() {
    let point = Mpz::from_string("45431654658454164674896465").unwrap();
    let prime = point.nearest_greater().unwrap();
    assert_eq!("45431654658454164674896481", prime.to_string());
}

#[test]
fn mpz_nearest_greater_round_trip() {
    assert_eq!(Mpz::from(96u64).nearest_greater(), Some(Mpz::from(97u64)));
}

#[test]
fn mpz_nearest_lesser_of_two_is_absent() {
    assert_eq!(Mpz::from(2u64).nearest_lesser(), None);
    assert_eq!(Mpz::from(1u64).nearest_lesser(), None);
    assert_eq!(Mpz::from(0u64).nearest_lesser(), None);
}

#[test]
fn mpz_nearest_lesser_of_three_is_two() {
    assert_eq!(Mpz::from(3u64).nearest_lesser(), Some(Mpz::from(2u64)));
    assert_eq!(Mpz::from(98u64).nearest_lesser(), Some(Mpz::from(97u64)));
}

#[test]
fn mpz_nearest_prefers_greater_of_equidistant() {
    assert_eq!(Mpz::from(6u64).nearest(), Mpz::from(7u64));
    assert_eq!(Mpz::from(9u64).nearest(), Mpz::from(11u64));
    assert_eq!(Mpz::from(8u64).nearest(), Mpz::from(7u64));
    assert_eq!(Mpz::from(0u64).nearest(), Mpz::from(2u64));
}

#[test]
fn strength_matches_neighbour_distances() {
    assert_eq!(Mpz::from(5u64).nt_strength(), Some(0));
    assert_eq!(Mpz::from(23u64).nt_strength(), Some(-1));
    assert_eq!(Mpz::from(17u64).nt_strength(), Some(1));
    assert_eq!(Mpz::from(2u64).nt_strength(), None);
    assert_eq!(Mpz::from(4u64).nt_strength(), None);
}

#[test]
fn mpz_form_pythagorean() {
    assert_eq!(Mpz::from(17657u64).is_form(Mpz::from(4u64), Mpz::from(1u64)), true);
    assert_eq!(Mpz::from(11u64).is_form(Mpz::from(4u64), Mpz::from(1u64)), false);
    assert_eq!(Mpz::from(5u64).is_form(Mpz::from(2u64), Mpz::from(7u64)), false);
    assert_eq!(Mpz::from(5u64).is_form(Mpz::from(2u64), Mpz::from(5u64)), false);
}

#[test]
fn isolated_primes() {
    assert!(Mpz::from(23u64).is_isolated());
    assert!(Mpz::from(89u64).is_isolated());
    assert!(!Mpz::from(5u64).is_isolated());
    assert!(!Mpz::from(13u64).is_isolated());
    assert!(!Mpz::from(9u64).is_isolated());
    assert!(!Mpz::from(1u64).is_isolated());
}

#[test]
fn mpz_sophie_certifies_pair() {
    let safe = Mpz::from(1481u64).sophie_safe().unwrap();
    assert_eq!(safe, Mpz::from(2963u64));
}

#[test]
fn mpz_sophie_absent_when_witness_fails() {
    assert_eq!(Mpz::from(7u64).sophie_safe(), None);
    assert_eq!(Mpz::from(4u64).sophie_safe(), None);
}
