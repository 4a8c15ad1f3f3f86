//! The bounded realization, exercised on concrete fixed-width values.

use nt_primes::NTPrimality;

#[test]
fn standard_accepts_primes() {
    assert!(2u64.is_standard());
    assert!(3u64.is_standard());
    assert!(5u64.is_standard());
    assert!(97u64.is_standard());
    assert!(18446744073709551557u64.is_standard());
    assert!(251u8.is_standard());
}

#[test]
fn standard_rejects_composites_zero_and_one() {
    assert!(!0u64.is_standard());
    assert!(!1u64.is_standard());
    assert!(!4u64.is_standard());
    assert!(!9u64.is_standard());
    assert!(!100u64.is_standard());
    assert!(!255u8.is_standard());
}

#[test]
fn delta_finds_upward_twin() {
    assert_eq!(3u64.delta(2), Some(5));
}

#[test]
fn delta_prefers_upward_before_downward() {
    assert_eq!(7u64.delta(4), Some(11));
}

#[test]
fn delta_falls_back_downward() {
    assert_eq!(7u64.delta(2), Some(5));
}

#[test]
fn delta_zero_sentinel_when_no_prime_at_offset() {
    assert_eq!(7u64.delta(1), Some(0));
}

#[test]
fn delta_absent_on_composite_argument() {
    assert_eq!(8u64.delta(1), None);
}

#[test]
fn delta_absent_when_offset_exceeds_argument() {
    assert_eq!(3u64.delta(5), None);
}

#[test]
fn nearest_greater_in_eight_bit_range() {
    assert_eq!(250u8.nearest_greater(), Some(251));
}

#[test]
fn nearest_greater_absent_past_last_eight_bit_prime() {
    assert_eq!(252u8.nearest_greater(), None);
    assert_eq!(255u8.nearest_greater(), None);
}

#[test]
fn nearest_greater_round_trip() {
    assert_eq!(96u64.nearest_greater(), Some(97));
    assert_eq!(4u64.nearest_greater(), Some(5));
}

#[test]
fn nearest_lesser_of_two_is_absent() {
    assert_eq!(2u64.nearest_lesser(), None);
    assert_eq!(2u8.nearest_lesser(), None);
    assert_eq!(0u64.nearest_lesser(), None);
    assert_eq!(1u64.nearest_lesser(), None);
}

#[test]
fn nearest_lesser_of_three_is_two() {
    assert_eq!(3u64.nearest_lesser(), Some(2));
}

#[test]
fn nearest_lesser_round_trip() {
    assert_eq!(98u64.nearest_lesser(), Some(97));
}

#[test]
fn nearest_prefers_greater_of_equidistant() {
    assert_eq!(6u64.nearest(), 7);
    assert_eq!(4u64.nearest(), 5);
}

#[test]
fn nearest_takes_closer_side() {
    assert_eq!(8u64.nearest(), 7);
    assert_eq!(9u64.nearest(), 11);
    assert_eq!(0u64.nearest(), 2);
    assert_eq!(1u64.nearest(), 2);
}

#[test]
fn strength_balanced() {
    assert_eq!(5u64.nt_strength(), Some(0));
}

#[test]
fn strength_weak_when_greater_neighbour_farther() {
    assert_eq!(23u64.nt_strength(), Some(-1));
}

#[test]
fn strength_strong_when_lesser_neighbour_farther() {
    assert_eq!(17u64.nt_strength(), Some(1));
}

#[test]
fn strength_absent_without_lesser_neighbour() {
    assert_eq!(2u64.nt_strength(), None);
}

#[test]
fn strength_absent_on_composite() {
    assert_eq!(4u64.nt_strength(), None);
}

#[test]
fn strength_is_pure() {
    assert_eq!(23u64.nt_strength(), 23u64.nt_strength());
    assert_eq!(17u8.nt_strength(), 17u8.nt_strength());
}

#[test]
fn form_pythagorean() {
    assert_eq!(17657u64.is_form(4u64, 1u64), true);
}

#[test]
fn form_rejects_addend_at_least_value() {
    assert_eq!(5u64.is_form(2, 7), false);
    assert_eq!(5u64.is_form(2, 5), false);
    assert_eq!(17657u64.is_form(4, 17657), false);
}

#[test]
fn form_rejects_wrong_residue_class() {
    assert_eq!(11u64.is_form(4, 1), false);
}

#[test]
fn form_rejects_composite() {
    assert_eq!(9u64.is_form(4, 1), false);
}

#[test]
fn isolated_prime_without_twins() {
    assert!(23u64.is_isolated());
    assert!(89u64.is_isolated());
}

#[test]
fn isolated_rejects_twin_member() {
    assert!(!5u64.is_isolated());
    assert!(!13u64.is_isolated());
    assert!(!3u64.is_isolated());
}

#[test]
fn isolated_rejects_composites_and_small_values() {
    assert!(!0u64.is_isolated());
    assert!(!1u64.is_isolated());
    assert!(!9u64.is_isolated());
}

#[test]
fn isolated_rejects_near_maximum() {
    assert!(!254u8.is_isolated());
    assert!(!255u8.is_isolated());
}

#[test]
fn sophie_certifies_pair() {
    let sophie = 1481u64;
    let safe = sophie.sophie_safe().unwrap();
    assert_eq!(safe, 2963);
    assert_eq!(2u8.sophie_safe(), Some(5));
}

#[test]
fn sophie_absent_when_witness_fails() {
    assert_eq!(7u64.sophie_safe(), None);
}

#[test]
fn sophie_absent_on_composite() {
    assert_eq!(4u64.sophie_safe(), None);
}

#[test]
fn sophie_absent_when_safe_prime_overflows() {
    assert_eq!(251u8.sophie_safe(), None);
}

#[test]
fn form_with_zero_scalar_and_large_addend() {
    assert_eq!(5u64.is_form(0, 7), false);
    assert_eq!(5u64.is_form(0, 5), false);
}

#[test]
fn other_unsigned_widths() {
    assert!(65521u16.is_standard());
    assert_eq!(3u16.delta(2), Some(5));
    assert_eq!(65520u16.nearest_greater(), Some(65521));
    assert_eq!(4294967291u32.nearest_greater(), None);
    assert_eq!(98u32.nearest_lesser(), Some(97));
    assert_eq!(1481usize.sophie_safe(), Some(2963));
    assert_eq!(17657usize.is_form(4, 1), true);
}

#[test]
fn signed_widths_on_their_non_negative_domain() {
    assert!(113i8.is_standard());
    assert!(!119i8.is_standard());
    assert_eq!(3i16.delta(2), Some(5));
    assert_eq!(2i32.nearest_lesser(), None);
    assert_eq!(3i32.nearest_lesser(), Some(2));
    assert_eq!(6i64.nearest(), 7);
    assert_eq!(23i64.nt_strength(), Some(-1));
    assert!(23isize.is_isolated());
    assert!(!5isize.is_isolated());
    assert_eq!(1481i64.sophie_safe(), Some(2963));
    assert_eq!(7i64.sophie_safe(), None);
}

#[test]
fn signed_widths_guard_their_maximum() {
    assert_eq!(113i8.sophie_safe(), None);
    assert_eq!(126i8.nearest_greater(), Some(127));
    assert_eq!(127i8.nearest_greater(), None);
    assert!(!126i8.is_isolated());
}
