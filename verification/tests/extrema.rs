use ommx::extrema::{
    bits_of_ordered_key, lower_narrow, lower_probe_key, ordered_key, upper_narrow, upper_probe_key,
    GREATEST_FINITE_KEY, LEAST_FINITE_KEY, SIGN_MASK,
};

/// A bound `[lower, upper]` read with the absolute tolerance `atol`, as the
/// searches probe it.
struct TestBound {
    lower: f64,
    upper: f64,
}

impl TestBound {
    fn contains(&self, value: f64, atol: f64) -> bool {
        if !value.is_finite() {
            return false;
        }
        let le_zero = |residual: f64| residual.is_finite() && (residual < 0.0 || residual.abs() <= atol);
        let lower_ok = self.lower == f64::NEG_INFINITY || le_zero(self.lower - value);
        let upper_ok = self.upper == f64::INFINITY || le_zero(value - self.upper);
        lower_ok && upper_ok
    }

    fn nearest_to_zero(&self) -> f64 {
        if self.lower >= 0.0 {
            self.lower
        } else if self.upper <= 0.0 {
            self.upper
        } else {
            0.0
        }
    }

    fn finite_feasible_extrema(&self, atol: f64) -> (f64, f64) {
        let value_of = |key: u64| f64::from_bits(bits_of_ordered_key(key));
        let seed = self.nearest_to_zero();
        let mut first = ordered_key((-f64::MAX).to_bits());
        let mut lower_accepted = ordered_key(seed.to_bits());
        while first < lower_accepted {
            let middle = lower_probe_key(first, lower_accepted);
            let accepted = self.contains(value_of(middle), atol);
            (first, lower_accepted) = lower_narrow(first, lower_accepted, accepted);
        }
        let mut upper_accepted = ordered_key(seed.to_bits());
        let mut last = ordered_key(f64::MAX.to_bits());
        while upper_accepted < last {
            let middle = upper_probe_key(upper_accepted, last);
            let accepted = self.contains(value_of(middle), atol);
            (upper_accepted, last) = upper_narrow(upper_accepted, last, accepted);
        }
        (value_of(lower_accepted), value_of(upper_accepted))
    }
}

#[test]
fn finite_feasible_extrema_are_exactly_derived_from_contains() {
    let atol = 1.0e-6;
    let bound = TestBound { lower: -2.0, upper: 2.0 };
    let (lower, upper) = bound.finite_feasible_extrema(atol);

    assert!(bound.contains(lower, atol));
    assert!(bound.contains(upper, atol));
    assert!(!bound.contains(lower.next_down(), atol));
    assert!(!bound.contains(upper.next_up(), atol));

    assert!(!bound.contains(2.0 + atol, atol));
    assert!(upper < 2.0 + atol);
}

#[test]
fn extrema_of_the_widest_finite_bound_avoid_residual_overflow() {
    let atol = 1.0e-6;
    let bound = TestBound { lower: -f64::MAX, upper: f64::MAX };
    assert!(bound.contains(0.0, atol));
    assert!(!bound.contains(-f64::MAX, atol));
    assert!(!bound.contains(f64::MAX, atol));

    let (lower, upper) = bound.finite_feasible_extrema(atol);
    assert!(bound.contains(lower, atol));
    assert!(bound.contains(upper, atol));
    assert!(!bound.contains(lower.next_down(), atol));
    assert!(!bound.contains(upper.next_up(), atol));
}

#[test]
fn extrema_of_a_half_open_bound_reach_the_greatest_finite_value() {
    let atol = 1.0e-6;
    let bound = TestBound { lower: 1.0, upper: f64::INFINITY };
    let (lower, upper) = bound.finite_feasible_extrema(atol);
    assert_eq!(upper, f64::MAX);
    assert!(lower < 1.0);
    assert!(bound.contains(lower, atol));
    assert!(!bound.contains(lower.next_down(), atol));
}

#[test]
fn ordered_keys_of_known_values() {
    assert_eq!(SIGN_MASK, 1u64 << 63);
    assert_eq!(ordered_key(0.0f64.to_bits()), 0x8000_0000_0000_0000);
    assert_eq!(ordered_key((-0.0f64).to_bits()), 0x7fff_ffff_ffff_ffff);
    assert_eq!(ordered_key(1.0f64.to_bits()), 0xbff0_0000_0000_0000);
    assert_eq!(ordered_key((-1.0f64).to_bits()), 0x400f_ffff_ffff_ffff);
    assert_eq!(ordered_key((-f64::MAX).to_bits()), LEAST_FINITE_KEY);
    assert_eq!(ordered_key(f64::MAX.to_bits()), GREATEST_FINITE_KEY);
    assert!(ordered_key(f64::INFINITY.to_bits()) > GREATEST_FINITE_KEY);
    assert!(ordered_key(f64::NEG_INFINITY.to_bits()) < LEAST_FINITE_KEY);
}

#[test]
fn ordered_keys_follow_value_order_and_round_trip() {
    let values = [-f64::MAX, -3.5, -1.0, -f64::MIN_POSITIVE, -0.0, 0.0, 1.0e-300, 1.0, 2.5, f64::MAX];
    for pair in values.windows(2) {
        assert!(ordered_key(pair[0].to_bits()) < ordered_key(pair[1].to_bits()));
    }
    for value in values {
        assert_eq!(bits_of_ordered_key(ordered_key(value.to_bits())), value.to_bits());
    }
    for key in [0u64, 1, LEAST_FINITE_KEY, SIGN_MASK - 1, SIGN_MASK, GREATEST_FINITE_KEY, u64::MAX] {
        assert_eq!(ordered_key(bits_of_ordered_key(key)), key);
    }
}

#[test]
fn search_steps_narrow_toward_the_boundary() {
    assert_eq!(lower_probe_key(0, 10), 5);
    assert_eq!(lower_narrow(0, 10, true), (0, 5));
    assert_eq!(lower_narrow(0, 10, false), (6, 10));
    assert_eq!(lower_probe_key(3, 4), 3);
    assert_eq!(lower_narrow(3, 4, false), (4, 4));

    assert_eq!(upper_probe_key(0, 10), 5);
    assert_eq!(upper_probe_key(0, 9), 5);
    assert_eq!(upper_narrow(0, 9, true), (5, 9));
    assert_eq!(upper_narrow(0, 9, false), (0, 4));
    assert_eq!(upper_probe_key(3, 4), 4);
    assert_eq!(upper_narrow(3, 4, false), (3, 3));

    assert_eq!(lower_probe_key(0, u64::MAX), u64::MAX / 2);
    assert_eq!(upper_probe_key(0, u64::MAX), u64::MAX / 2 + 1);
}
