use fraud_signal::score::{
    composite_score, whole_points, Decision, Weights, COMPOSITE_POINT, POINT,
};

#[test]
fn test_decision_from_score() {
    assert_eq!(Decision::from_score(85), Decision::Block);
    assert_eq!(Decision::from_score(60), Decision::Review);
    assert_eq!(Decision::from_score(30), Decision::Pass);
}

#[test]
fn decision_matrix_boundaries() {
    assert_eq!(Decision::from_score(80), Decision::Block);
    assert_eq!(Decision::from_score(u32::MAX), Decision::Block);
    assert_eq!(Decision::from_score(79), Decision::Review);
    assert_eq!(Decision::from_score(50), Decision::Review);
    assert_eq!(Decision::from_score(49), Decision::Pass);
    assert_eq!(Decision::from_score(0), Decision::Pass);
}

#[test]
fn fractions_of_a_point_are_dropped() {
    assert_eq!(whole_points(80 * COMPOSITE_POINT - 1), 79);
    assert_eq!(whole_points(80 * COMPOSITE_POINT), 80);
    assert_eq!(Decision::from_composite(80 * COMPOSITE_POINT - 1), Decision::Review);
    assert_eq!(Decision::from_composite(80 * COMPOSITE_POINT), Decision::Block);
    assert_eq!(Decision::from_composite(50 * COMPOSITE_POINT - 1), Decision::Pass);
    assert_eq!(whole_points(u128::MAX), u32::MAX);
}

#[test]
fn units_fit_together() {
    assert_eq!(u128::from(POINT) * 100, COMPOSITE_POINT);
    assert_eq!(POINT, 9 << 52);
}

#[test]
fn default_weights_are_half_three_tenths_and_a_fifth() {
    let weights = Weights::default();
    assert_eq!((weights.rule, weights.velocity, weights.entropy), (50, 30, 20));
}

#[test]
fn composite_of_default_weights() {
    let weights = Weights::default();
    // 0.5 * 70 + 0.3 * 55 + 0.2 * 40 = 59.5
    let composite = composite_score(&weights, 70, 55, 40 * POINT);
    assert_eq!(composite, COMPOSITE_POINT * 119 / 2);
    assert_eq!(composite_score(&weights, 100, 100, 100 * POINT), 100 * COMPOSITE_POINT);
    assert_eq!(composite_score(&weights, 0, 0, 0), 0);
}

#[test]
fn composite_of_other_weights() {
    let weights = Weights { rule: 20, velocity: 20, entropy: 60 };
    assert_eq!(composite_score(&weights, 10, 20, 50 * POINT), 36 * COMPOSITE_POINT);
}

#[test]
fn largest_scores_do_not_overflow() {
    let weights = Weights { rule: u32::MAX, velocity: u32::MAX, entropy: u32::MAX };
    let composite = composite_score(&weights, u32::MAX, u32::MAX, u64::MAX);
    assert!(composite > 0);
}

#[test]
fn composite_agrees_with_the_formula_in_floating_point() {
    let weights = Weights::default();
    for rule in (0..=100u32).step_by(5) {
        for velocity in [0u32, 20, 25, 45, 55, 70, 75, 90, 95] {
            for entropy in 0..=100u64 {
                let float = 0.50 * f64::from(rule) + 0.30 * f64::from(velocity)
                    + 0.20 * entropy as f64;
                let exact = composite_score(&weights, rule, velocity, entropy * POINT);
                let points = exact as f64 / COMPOSITE_POINT as f64;
                assert!((points - float).abs() < 1e-9);
            }
        }
    }
}

#[test]
fn raising_a_score_never_lowers_the_composite() {
    let weights = Weights::default();
    let base = composite_score(&weights, 40, 25, 10 * POINT);
    assert!(composite_score(&weights, 41, 25, 10 * POINT) > base);
    assert!(composite_score(&weights, 40, 45, 10 * POINT) > base);
    assert!(composite_score(&weights, 40, 25, 10 * POINT + 1) > base);
}

#[test]
fn no_single_score_blocks() {
    let weights = Weights::default();
    let rules_alone = composite_score(&weights, 100, 0, 0);
    let velocity_alone = composite_score(&weights, 0, 100, 0);
    let entropy_alone = composite_score(&weights, 0, 0, 100 * POINT);
    assert_eq!(Decision::from_composite(rules_alone), Decision::Review);
    assert_eq!(Decision::from_composite(velocity_alone), Decision::Pass);
    assert_eq!(Decision::from_composite(entropy_alone), Decision::Pass);
}
