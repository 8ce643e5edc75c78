//! Scores, how they combine, and what a combined score decides.
//!
//! Rule and velocity scores are whole points from 0 to 100. An entropy score also runs from 0
//! to 100 points, but falls between whole points; it is counted in units of which `POINT` make
//! one point. A composite score is counted in units of which `COMPOSITE_POINT` make one point.
//! In these units every score below is exact.

use vstd::prelude::*;

verus! {

/// One point of an entropy score: nine times two to the power 52.
pub const POINT: u64 = 40_532_396_646_334_464;

/// One point of a composite score: a hundred times `POINT`.
pub const COMPOSITE_POINT: u128 = 4_053_239_664_633_446_400;

/// What is to become of a scored transaction.
#[derive(Debug, Clone, Copy, PartialEq, Eq, Structural)]
pub enum Decision {
    /// Declined on the spot.
    Block,
    /// Routed to an analyst.
    Review,
    /// Forwarded to settlement.
    Pass,
}

/// The decision matrix, over whole points: 80 and more blocks, 50 to 79 asks for a review, less
/// passes.
pub open spec fn decision_at(points: int) -> Decision {
    if points >= 80 {
        Decision::Block
    } else if points >= 50 {
        Decision::Review
    } else {
        Decision::Pass
    }
}

/// How severe a decision is: 0 for passing, 2 for blocking.
pub open spec fn severity_of(decision: Decision) -> int {
    match decision {
        Decision::Block => 2,
        Decision::Review => 1,
        Decision::Pass => 0,
    }
}

impl Decision {
    /// The decision for a score of so many whole points, fractions dropped.
    pub fn from_score(score: u32) -> (decision: Decision)
        ensures
            decision == decision_at(score as int),
            decision == Decision::Block <==> score >= 80,
            decision == Decision::Review <==> 50 <= score < 80,
            decision == Decision::Pass <==> score < 50,
    {
        if score >= 80 {
            Decision::Block
        } else if score >= 50 {
            Decision::Review
        } else {
            Decision::Pass
        }
    }

    /// The decision for a composite score.
    pub fn from_composite(composite: u128) -> (decision: Decision)
        ensures
            decision == decision_at(composite as int / COMPOSITE_POINT as int),
            decision == Decision::Block <==> composite >= 80 * COMPOSITE_POINT,
            decision == Decision::Review <==> 50 * COMPOSITE_POINT <= composite < 80
                * COMPOSITE_POINT,
            decision == Decision::Pass <==> composite < 50 * COMPOSITE_POINT,
    {
        Decision::from_score(whole_points(composite))
    }
}

/// The whole points of a composite score, fractions dropped, or `u32::MAX` if there are more.
pub fn whole_points(composite: u128) -> (points: u32)
    ensures
        points == if composite as int / COMPOSITE_POINT as int <= u32::MAX {
            composite as int / COMPOSITE_POINT as int
        } else {
            u32::MAX as int
        },
{
    let points: u128 = composite / COMPOSITE_POINT;
    if points <= 0xffff_ffff {
        points as u32
    } else {
        u32::MAX
    }
}

/// How much each score counts in the composite, in hundredths.
#[derive(Debug, Clone, Copy, PartialEq, Eq, Structural)]
pub struct Weights {
    /// Hundredths of the rule score.
    pub rule: u32,
    /// Hundredths of the velocity score.
    pub velocity: u32,
    /// Hundredths of the entropy score.
    pub entropy: u32,
}

impl Default for Weights {
    fn default() -> (weights: Weights)
        ensures
            weights == default_weights(),
            weights.rule == 50,
            weights.velocity == 30,
            weights.entropy == 20,
    {
        Weights { rule: 50, velocity: 30, entropy: 20 }
    }
}

/// The weights in force unless others are chosen: 0.50, 0.30 and 0.20.
pub open spec fn default_weights() -> Weights {
    Weights { rule: 50, velocity: 30, entropy: 20 }
}

/// The weighted sum of a rule score, a velocity score and an entropy score.
pub open spec fn weighted_sum(weights: Weights, rule: int, velocity: int, entropy: int) -> int {
    weights.rule * (rule * POINT) + weights.velocity * (velocity * POINT) + weights.entropy
        * entropy
}

/// A product of bounded factors is bounded.
proof fn lemma_product(a: int, a_max: int, b: int, b_max: int)
    requires
        0 <= a <= a_max,
        0 <= b <= b_max,
    ensures
        0 <= a * b <= a_max * b_max,
{
    assert(0 <= a * b <= a_max * b_max) by (nonlinear_arith)
        requires
            0 <= a <= a_max,
            0 <= b <= b_max,
    ;
}

/// The composite score of a rule score and a velocity score, both in whole points, and an
/// entropy score.
pub fn composite_score(weights: &Weights, rule: u32, velocity: u32, entropy: u64) -> (composite:
    u128)
    ensures
        composite == weighted_sum(*weights, rule as int, velocity as int, entropy as int),
        composite == weights.rule * (rule * POINT) + weights.velocity * (velocity * POINT)
            + weights.entropy * entropy,
{
    proof {
        lemma_product(rule as int, 0xffff_ffff, POINT as int, POINT as int);
        lemma_product(velocity as int, 0xffff_ffff, POINT as int, POINT as int);
        lemma_product(weights.rule as int, 0xffff_ffff, rule * POINT, 0xffff_ffff * POINT);
        lemma_product(weights.velocity as int, 0xffff_ffff, velocity * POINT, 0xffff_ffff * POINT);
        lemma_product(weights.entropy as int, 0xffff_ffff, entropy as int, 0xffff_ffff_ffff_ffff);
    }
    let r: u128 = rule as u128 * POINT as u128;
    let v: u128 = velocity as u128 * POINT as u128;
    weights.rule as u128 * r + weights.velocity as u128 * v + weights.entropy as u128
        * entropy as u128
}

/// A point of an entropy score is nine times two to the power 52, and a point of a composite a
/// hundred times as much.
pub proof fn law_units()
    ensures
        POINT == 9 * 0x10_0000_0000_0000,
        COMPOSITE_POINT == 100 * POINT,
{
}

/// Decisions are graded: blocking is more severe than review, and review than passing.
pub proof fn law_severities_are_graded()
    ensures
        severity_of(Decision::Block) > severity_of(Decision::Review) > severity_of(Decision::Pass),
{
}

/// Whole points decide by themselves: 80 and more block, 50 to 79 ask for a review, less pass.
pub proof fn law_decision_by_points(points: int)
    ensures
        decision_at(points) == Decision::Block <==> points >= 80,
        decision_at(points) == Decision::Review <==> 50 <= points < 80,
        decision_at(points) == Decision::Pass <==> points < 50,
{
}

/// The default weights are 0.50, 0.30 and 0.20.
pub proof fn law_default_weights()
    ensures
        default_weights().rule == 50,
        default_weights().velocity == 30,
        default_weights().entropy == 20,
{
}

/// Each score counts by its weight and by nothing else: raising one by some amount raises the
/// composite by the weight times that amount, whatever the other scores are, and scores of
/// nothing make nothing.
pub proof fn law_scores_count_by_their_weights(
    weights: Weights,
    rule: int,
    velocity: int,
    entropy: int,
    more: int,
)
    ensures
        weighted_sum(weights, 0, 0, 0) == 0,
        weighted_sum(weights, rule + more, velocity, entropy) - weighted_sum(
            weights,
            rule,
            velocity,
            entropy,
        ) == weights.rule * (more * POINT),
        weighted_sum(weights, rule, velocity + more, entropy) - weighted_sum(
            weights,
            rule,
            velocity,
            entropy,
        ) == weights.velocity * (more * POINT),
        weighted_sum(weights, rule, velocity, entropy + more) - weighted_sum(
            weights,
            rule,
            velocity,
            entropy,
        ) == weights.entropy * more,
{
    let w = weights.rule as int;
    assert(w * ((rule + more) * POINT) == w * (rule * POINT) + w * (more * POINT))
        by (nonlinear_arith);
    let w = weights.velocity as int;
    assert(w * ((velocity + more) * POINT) == w * (velocity * POINT) + w * (more * POINT))
        by (nonlinear_arith);
    let w = weights.entropy as int;
    assert(w * (entropy + more) == w * entropy + w * more) by (nonlinear_arith);
    assert(weights.rule * (0 * POINT) == 0) by (nonlinear_arith);
    assert(weights.velocity * (0 * POINT) == 0) by (nonlinear_arith);
    assert(weights.entropy * 0 == 0) by (nonlinear_arith);
}

/// The decision matrix holds of the composite itself: a transaction is blocked from 80 points
/// on, passes below 50, and goes to review in between.
pub proof fn law_decision_matrix(composite: u128)
    ensures
        decision_at(composite as int / COMPOSITE_POINT as int) == Decision::Block <==> composite
            >= 80 * COMPOSITE_POINT,
        decision_at(composite as int / COMPOSITE_POINT as int) == Decision::Review <==> 50
            * COMPOSITE_POINT <= composite < 80 * COMPOSITE_POINT,
        decision_at(composite as int / COMPOSITE_POINT as int) == Decision::Pass <==> composite < 50
            * COMPOSITE_POINT,
{
}

/// A higher composite is never decided more mildly.
pub proof fn law_decision_monotone(low: u128, high: u128)
    requires
        low <= high,
    ensures
        severity_of(decision_at(low as int / COMPOSITE_POINT as int)) <= severity_of(
            decision_at(high as int / COMPOSITE_POINT as int),
        ),
{
}

/// Whatever the weights, raising a score never lowers the composite.
pub proof fn law_composite_monotone(
    weights: Weights,
    low: (u32, u32, u64),
    high: (u32, u32, u64),
)
    requires
        low.0 <= high.0,
        low.1 <= high.1,
        low.2 <= high.2,
    ensures
        weighted_sum(weights, low.0 as int, low.1 as int, low.2 as int) <= weighted_sum(
            weights,
            high.0 as int,
            high.1 as int,
            high.2 as int,
        ),
{
    let w = weights.rule as int;
    lemma_product(w, w, low.0 * POINT, high.0 * POINT);
    let w = weights.velocity as int;
    lemma_product(w, w, low.1 * POINT, high.1 * POINT);
    let w = weights.entropy as int;
    lemma_product(w, w, low.2 as int, high.2 as int);
}

/// Scores between 0 and 100 points give a composite between 0 and 100 points, as long as the
/// weights share out no more than the whole.
pub proof fn law_composite_range(weights: Weights, rule: u32, velocity: u32, entropy: u64)
    requires
        weights.rule + weights.velocity + weights.entropy <= 100,
        rule <= 100,
        velocity <= 100,
        entropy <= 100 * POINT,
    ensures
        0 <= weighted_sum(weights, rule as int, velocity as int, entropy as int) <= 100
            * COMPOSITE_POINT,
{
    let w = weights.rule as int;
    lemma_product(w, w, rule * POINT, 100 * POINT);
    let w = weights.velocity as int;
    lemma_product(w, w, velocity * POINT, 100 * POINT);
    let w = weights.entropy as int;
    lemma_product(w, w, entropy as int, 100 * POINT);
}

/// With the default weights no single score blocks a transaction: rules alone lead to a review
/// at most, and neither velocity nor entropy alone even to that.
pub proof fn law_no_single_score_blocks(rule: u32, velocity: u32, entropy: u64)
    requires
        rule <= 100,
        velocity <= 100,
        entropy <= 100 * POINT,
    ensures
        decision_at(
            weighted_sum(default_weights(), rule as int, 0, 0) / COMPOSITE_POINT as int,
        ) != Decision::Block,
        decision_at(
            weighted_sum(default_weights(), 0, velocity as int, 0) / COMPOSITE_POINT as int,
        ) == Decision::Pass,
        decision_at(
            weighted_sum(default_weights(), 0, 0, entropy as int) / COMPOSITE_POINT as int,
        ) == Decision::Pass,
{
}

} // verus!
