use spectrum_bars::easing::Easing;

const ALL_CURVES: [Easing; 5] = [
    Easing::Linear,
    Easing::BounceOut,
    Easing::Oscillate,
    Easing::QuadraticEaseIn,
    Easing::QuadraticEaseOut,
];

#[test]
fn linear_is_the_clamped_identity() {
    assert_eq!(Easing::Linear.pos(0, 10), 0);
    assert_eq!(Easing::Linear.pos(3, 10), 3);
    assert_eq!(Easing::Linear.pos(10, 10), 10);
    assert_eq!(Easing::Linear.pos(15, 10), 10);
    for step in 0..30usize {
        assert_eq!(Easing::Linear.pos(step, 12), step.min(12));
    }
}

#[test]
fn every_curve_starts_at_zero() {
    for curve in ALL_CURVES {
        assert_eq!(curve.pos(0, 480), 0);
        assert_eq!(curve.pos(0, 7), 0);
    }
}

#[test]
fn every_curve_ends_exactly_at_max() {
    for curve in ALL_CURVES {
        assert_eq!(curve.pos(480, 480), 480);
        assert_eq!(curve.pos(7, 7), 7);
        assert_eq!(curve.pos(1000, 480), 480);
    }
}

#[test]
fn zero_domain_guards_division() {
    for curve in ALL_CURVES {
        assert_eq!(curve.pos(0, 0), 0);
        assert_eq!(curve.pos(7, 0), 0);
    }
}

#[test]
fn every_curve_stays_in_the_domain() {
    for curve in ALL_CURVES {
        for step in 0..=480usize {
            let eased = curve.pos(step, 480);
            assert!(eased <= 480);
        }
    }
}

#[test]
fn quadratic_ease_in_values() {
    // round(10 * (3/10)^2) and round(10 * (5/10)^2), halves away from zero.
    assert_eq!(Easing::QuadraticEaseIn.pos(3, 10), 1);
    assert_eq!(Easing::QuadraticEaseIn.pos(5, 10), 3);
    assert_eq!(Easing::QuadraticEaseIn.pos(9, 10), 8);
}

#[test]
fn quadratic_ease_out_values() {
    // round(10 * (1 - (1 - t)^2)) at t = 3/10 and t = 5/10.
    assert_eq!(Easing::QuadraticEaseOut.pos(3, 10), 5);
    assert_eq!(Easing::QuadraticEaseOut.pos(5, 10), 8);
    assert_eq!(Easing::QuadraticEaseOut.pos(1, 10), 2);
}

#[test]
fn bounce_out_values() {
    // First segment at t = 2/11: round(11 * 7.5625 * (2/11)^2) = 3.
    assert_eq!(Easing::BounceOut.pos(2, 11), 3);
    // Second segment at t = 5/11: round(11 * 0.8125) = 9.
    assert_eq!(Easing::BounceOut.pos(5, 11), 9);
    // The curve touches the ceiling at the first bounce boundary.
    assert_eq!(Easing::BounceOut.pos(4, 11), 11);
}

#[test]
fn easing_handles_the_largest_domain() {
    let max: usize = 0xffff_ffff;
    for curve in ALL_CURVES {
        assert_eq!(curve.pos(0, max), 0);
        assert_eq!(curve.pos(max, max), max);
        assert!(curve.pos(max / 2, max) <= max);
        assert!(curve.pos(max / 3, max) <= max);
    }
}

#[test]
fn oscillate_hits_quarter_turns_exactly() {
    // At s = 1 of 16, the wave is at its crest: t + 1/16 = 1/8.
    assert_eq!(Easing::Oscillate.pos(1, 16), 2);
    // At s = 2 of 16, the wave crosses zero: t alone = 1/8.
    assert_eq!(Easing::Oscillate.pos(2, 16), 2);
    // At s = 3 of 16, the wave is at its trough: t - 1/16 = 1/8.
    assert_eq!(Easing::Oscillate.pos(3, 16), 2);
    // A full period later the same pattern repeats.
    assert_eq!(Easing::Oscillate.pos(5, 16), 6);
}
