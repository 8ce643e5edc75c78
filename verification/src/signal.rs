//! From a transaction to its fraud signal.

use crate::clock::{clock_shows, clock_shows_millis, unix_millis, unix_secs};
use crate::consumer::{accept, MessageError, Payload};
use crate::extractor::{ExtractorView, FeatureExtractor};
use crate::rules::{
    ids, law_rule_score_monotone, rule_score, texts, triggered, RuleEngine, RuleView,
};
use crate::score::{
    composite_score, decision_at, law_composite_monotone, law_composite_range, law_decision_matrix,
    law_decision_monotone, severity_of, weighted_sum, Decision, Weights, COMPOSITE_POINT, POINT,
};
use crate::types::{FraudSignal, RawTransaction, TransactionFeatures};
use vstd::prelude::*;

verus! {

/// A signal, for specifications.
#[verifier::ext_equal]
pub struct SignalView {
    pub txn_id: Seq<char>,
    pub account_id: Seq<char>,
    pub composite_score: int,
    pub decision: Decision,
    pub triggered_rules: Seq<Seq<char>>,
    pub velocity_score: int,
    pub entropy_score: int,
    pub rule_score: int,
    pub evaluated_at_ms: int,
}

impl View for FraudSignal {
    type V = SignalView;

    open spec fn view(&self) -> SignalView {
        SignalView {
            txn_id: self.txn_id@,
            account_id: self.account_id@,
            composite_score: self.composite_score as int,
            decision: self.decision,
            triggered_rules: texts(self.triggered_rules@),
            velocity_score: self.velocity_score as int,
            entropy_score: self.entropy_score as int,
            rule_score: self.rule_score as int,
            evaluated_at_ms: self.evaluated_at_ms as int,
        }
    }
}

/// The signal of a transaction with these features, held against these rules, weighted so and
/// stamped `millis`.
pub open spec fn signal_of(
    txn: &RawTransaction,
    features: &TransactionFeatures,
    rules: Seq<RuleView>,
    weights: Weights,
    millis: int,
) -> SignalView {
    let rule = rule_score(rules, txn, features);
    let velocity = features.velocity_score as int;
    let entropy = features.entropy_score as int;
    let composite = weighted_sum(weights, rule, velocity, entropy);
    SignalView {
        txn_id: txn.txn_id@,
        account_id: txn.account_id@,
        composite_score: composite,
        decision: decision_at(composite / COMPOSITE_POINT as int),
        triggered_rules: ids(triggered(rules, txn, features)),
        velocity_score: velocity,
        entropy_score: entropy,
        rule_score: rule,
        evaluated_at_ms: millis,
    }
}

/// Whether `signal` is the signal of a transaction with these features, held against these rules
/// and weighted so, whenever it was stamped.
pub open spec fn is_signal_of(
    signal: FraudSignal,
    txn: &RawTransaction,
    features: &TransactionFeatures,
    rules: Seq<RuleView>,
    weights: Weights,
) -> bool {
    signal@ == signal_of(txn, features, rules, weights, signal.evaluated_at_ms as int)
}

/// Whether a transaction can be evaluated at `now`, with `stamp` for a timestamp: there must be
/// one, and the account's spend must fit in 64 bits.
pub open spec fn evaluable(
    before: ExtractorView,
    txn: &RawTransaction,
    now: u64,
    stamp: Option<i64>,
) -> bool {
    stamp is Some && before.spend_fits(txn, now)
}

/// What becomes of a transaction that is processed at `now` and stamped `stamp`: its signal and
/// the extractor's state after it, or nothing at all if it cannot be evaluated.
pub open spec fn processes(
    before: ExtractorView,
    rules: Seq<RuleView>,
    weights: Weights,
    txn: &RawTransaction,
    entropy: u64,
    now: u64,
    stamp: Option<i64>,
    after: ExtractorView,
    signal: Option<FraudSignal>,
) -> bool {
    if evaluable(before, txn, now, stamp) {
        &&& after == before.after(txn, now)
        &&& signal is Some
        &&& signal->0@ == signal_of(
            txn,
            &before.features(txn, entropy, now),
            rules,
            weights,
            stamp->0 as int,
        )
    } else {
        after == before && signal is None
    }
}

/// The extractor's state after a message that is processed at `now` and stamped `stamp`: only a
/// transaction that is evaluated changes it.
pub open spec fn state_with(
    before: ExtractorView,
    payload: Payload,
    now: u64,
    stamp: Option<i64>,
) -> ExtractorView {
    match payload {
        Payload::Decoded(txn) => if evaluable(before, &txn, now, stamp) {
            before.after(&txn, now)
        } else {
            before
        },
        _ => before,
    }
}

/// What a message that is processed at `now` and stamped `stamp` comes to: the signal of its
/// transaction, or the reason why it is skipped.
pub open spec fn outcome_of(
    before: ExtractorView,
    rules: Seq<RuleView>,
    weights: Weights,
    payload: Payload,
    entropy: u64,
    now: u64,
    stamp: Option<i64>,
) -> Result<SignalView, MessageError> {
    match payload {
        Payload::Missing => Err(MessageError::EmptyPayload),
        Payload::Malformed => Err(MessageError::Undecodable),
        Payload::Decoded(txn) => if evaluable(before, &txn, now, stamp) {
            Ok(
                signal_of(
                    &txn,
                    &before.features(&txn, entropy, now),
                    rules,
                    weights,
                    stamp->0 as int,
                ),
            )
        } else {
            Err(MessageError::Unevaluable)
        },
    }
}

/// An outcome, for specifications.
pub open spec fn outcome_view(outcome: Result<FraudSignal, MessageError>) -> Result<
    SignalView,
    MessageError,
> {
    match outcome {
        Ok(signal) => Ok(signal@),
        Err(error) => Err(error),
    }
}

/// Whether processing a message at `now`, stamped `stamp`, leads to this state and this outcome.
pub open spec fn processes_message(
    before: ExtractorView,
    rules: Seq<RuleView>,
    weights: Weights,
    payload: Payload,
    entropy: u64,
    now: u64,
    stamp: Option<i64>,
    after: ExtractorView,
    outcome: Result<FraudSignal, MessageError>,
) -> bool {
    &&& after == state_with(before, payload, now, stamp)
    &&& outcome_view(outcome) == outcome_of(before, rules, weights, payload, entropy, now, stamp)
}

/// Scores a transaction whose features are known, and decides on it.
pub fn assemble_signal(
    txn: RawTransaction,
    features: &TransactionFeatures,
    rules: &RuleEngine,
    weights: &Weights,
    evaluated_at_ms: i64,
) -> (signal: FraudSignal)
    ensures
        is_signal_of(signal, &txn, features, rules@, *weights),
        signal.evaluated_at_ms == evaluated_at_ms,
        signal.txn_id@ == txn.txn_id@,
        signal.account_id@ == txn.account_id@,
        signal.rule_score == rule_score(rules@, &txn, features),
        signal.triggered_rules@.map_values(|s: String| s@) == ids(triggered(rules@, &txn, features)),
        signal.velocity_score == features.velocity_score,
        signal.entropy_score == features.entropy_score,
        signal.composite_score == weights.rule * (signal.rule_score * POINT) + weights.velocity * (
        signal.velocity_score * POINT) + weights.entropy * signal.entropy_score,
        signal.decision == Decision::Block <==> signal.composite_score >= 80 * COMPOSITE_POINT,
        signal.decision == Decision::Review <==> 50 * COMPOSITE_POINT <= signal.composite_score < 80
            * COMPOSITE_POINT,
        signal.decision == Decision::Pass <==> signal.composite_score < 50 * COMPOSITE_POINT,
{
    let (rule_score, triggered_rules) = rules.evaluate(&txn, features);
    let composite: u128 = composite_score(
        weights,
        rule_score,
        features.velocity_score,
        features.entropy_score,
    );
    let signal = FraudSignal {
        txn_id: txn.txn_id,
        account_id: txn.account_id,
        composite_score: composite,
        decision: Decision::from_composite(composite),
        triggered_rules,
        velocity_score: features.velocity_score,
        entropy_score: features.entropy_score,
        rule_score,
        evaluated_at_ms,
    };
    proof {
        law_signal_fields(signal, &txn, features, rules@, *weights);
    }
    signal
}

/// Takes a transaction whose merchant name has so much entropy through the whole evaluation, at
/// `now` and with `stamp` for a timestamp: its features are extracted, the rules are evaluated,
/// the scores combined and the decision taken. There is no signal, and nothing was entered in the
/// window, where there is no timestamp or the account's spend would not fit in 64 bits.
pub fn process_transaction_at(
    extractor: &mut FeatureExtractor,
    rules: &RuleEngine,
    weights: &Weights,
    txn: RawTransaction,
    entropy: u64,
    now: u64,
    stamp: Option<i64>,
) -> (signal: Option<FraudSignal>)
    ensures
        processes(
            old(extractor)@,
            rules@,
            *weights,
            &txn,
            entropy,
            now,
            stamp,
            final(extractor)@,
            signal,
        ),
        signal is Some <==> stamp is Some && old(extractor)@.spend_fits(&txn, now),
        signal is Some ==> final(extractor)@ == old(extractor)@.after(&txn, now),
        signal is None ==> final(extractor)@ == old(extractor)@,
        signal matches Some(found) ==> found.evaluated_at_ms == stamp->0 && is_signal_of(
            found,
            &txn,
            &old(extractor)@.features(&txn, entropy, now),
            rules@,
            *weights,
        ),
{
    match stamp {
        Some(millis) => {
            if extractor.spend_fits(&txn, now) {
                let features = extractor.extract_at(&txn, entropy, now);
                Some(assemble_signal(txn, &features, rules, weights, millis))
            } else {
                None
            }
        },
        None => None,
    }
}

/// Takes a transaction whose merchant name has so much entropy through the whole evaluation, at
/// the time that the system clock shows, and stamps it by the clock after that. There is no
/// signal, and nothing was entered in the window, where the account's spend would not fit in 64
/// bits, or the clock stands before the Unix epoch or too late for a date, so that there is no
/// timestamp.
pub fn process_transaction(
    extractor: &mut FeatureExtractor,
    rules: &RuleEngine,
    weights: &Weights,
    txn: RawTransaction,
    entropy: u64,
) -> (signal: Option<FraudSignal>)
    ensures
        exists|now: u64, stamp: Option<i64>|
            clock_shows(now) && clock_shows_millis(stamp) && #[trigger] processes(
                old(extractor)@,
                rules@,
                *weights,
                &txn,
                entropy,
                now,
                stamp,
                final(extractor)@,
                signal,
            ),
{
    let now: u64 = unix_secs();
    let stamp = unix_millis();
    process_transaction_at(extractor, rules, weights, txn, entropy, now, stamp)
}

/// Takes a message through acceptance and evaluation, at the times that the system clock shows.
/// `entropy` is that of the merchant's name, where the message holds a transaction. A message
/// without a transaction is skipped for its reason, and leaves the window as it was.
pub fn process_message(
    extractor: &mut FeatureExtractor,
    rules: &RuleEngine,
    weights: &Weights,
    payload: Payload,
    entropy: u64,
) -> (outcome: Result<FraudSignal, MessageError>)
    ensures
        payload is Missing ==> final(extractor)@ == old(extractor)@ && outcome == Err::<
            FraudSignal,
            _,
        >(MessageError::EmptyPayload),
        payload is Malformed ==> final(extractor)@ == old(extractor)@ && outcome == Err::<
            FraudSignal,
            _,
        >(MessageError::Undecodable),
        payload is Decoded ==> exists|now: u64, stamp: Option<i64>|
            clock_shows(now) && clock_shows_millis(stamp) && #[trigger] processes_message(
                old(extractor)@,
                rules@,
                *weights,
                payload,
                entropy,
                now,
                stamp,
                final(extractor)@,
                outcome,
            ),
{
    let ghost before = extractor@;
    match accept(payload) {
        Ok(txn) => {
            let signal = process_transaction(extractor, rules, weights, txn, entropy);
            let ghost (now, stamp) = choose|now: u64, stamp: Option<i64>|
                clock_shows(now) && clock_shows_millis(stamp) && #[trigger] processes(
                    before,
                    rules@,
                    *weights,
                    &txn,
                    entropy,
                    now,
                    stamp,
                    extractor@,
                    signal,
                );
            let outcome = match signal {
                Some(signal) => Ok(signal),
                None => Err(MessageError::Unevaluable),
            };
            assert(processes_message(
                before,
                rules@,
                *weights,
                payload,
                entropy,
                now,
                stamp,
                extractor@,
                outcome,
            ));
            outcome
        },
        Err(error) => Err(error),
    }
}

/// A message with what the clock shows when it is processed.
pub struct Message {
    pub payload: Payload,
    /// The entropy of the merchant's name, where the message holds a transaction.
    pub entropy: u64,
    pub now: u64,
    pub stamp: Option<i64>,
}

/// The extractor's state after a run of messages.
pub open spec fn state_after(start: ExtractorView, messages: Seq<Message>) -> ExtractorView
    decreases messages.len(),
{
    if messages.len() == 0 {
        start
    } else {
        let last = messages.last();
        state_with(
            state_after(start, messages.drop_last()),
            last.payload,
            last.now,
            last.stamp,
        )
    }
}

/// The signals that a run of messages leads to, in order.
pub open spec fn signals_of(
    start: ExtractorView,
    rules: Seq<RuleView>,
    weights: Weights,
    messages: Seq<Message>,
) -> Seq<SignalView>
    decreases messages.len(),
{
    if messages.len() == 0 {
        Seq::empty()
    } else {
        let earlier = signals_of(start, rules, weights, messages.drop_last());
        let last = messages.last();
        match outcome_of(
            state_after(start, messages.drop_last()),
            rules,
            weights,
            last.payload,
            last.entropy,
            last.now,
            last.stamp,
        ) {
            Ok(signal) => earlier.push(signal),
            Err(_) => earlier,
        }
    }
}

/// The messages that hold a transaction, in order.
pub open spec fn acceptable(messages: Seq<Message>) -> Seq<Message> {
    messages.filter(|message: Message| message.payload is Decoded)
}

/// Leaving out the messages that hold no transaction changes neither state nor signals.
proof fn lemma_only_transactions_count(
    start: ExtractorView,
    rules: Seq<RuleView>,
    weights: Weights,
    messages: Seq<Message>,
)
    ensures
        state_after(start, messages) == state_after(start, acceptable(messages)),
        signals_of(start, rules, weights, messages) == signals_of(
            start,
            rules,
            weights,
            acceptable(messages),
        ),
    decreases messages.len(),
{
    reveal(Seq::filter);
    if messages.len() > 0 {
        let rest = messages.drop_last();
        lemma_only_transactions_count(start, rules, weights, rest);
        if messages.last().payload is Decoded {
            assert(acceptable(messages).drop_last() =~= acceptable(rest));
            assert(acceptable(messages).last() == messages.last());
        }
    }
}

/// A message that holds no transaction neither stops the evaluation of others nor has a part in
/// it: two runs that differ only in such messages leave the same state and lead to the same
/// signals, in the same order.
pub proof fn law_refused_messages_have_no_part(
    start: ExtractorView,
    rules: Seq<RuleView>,
    weights: Weights,
    run: Seq<Message>,
    other: Seq<Message>,
)
    requires
        acceptable(run) == acceptable(other),
    ensures
        state_after(start, run) == state_after(start, other),
        signals_of(start, rules, weights, run) == signals_of(start, rules, weights, other),
{
    lemma_only_transactions_count(start, rules, weights, run);
    lemma_only_transactions_count(start, rules, weights, other);
}

/// A signal speaks of its transaction: it carries the transaction's ids, the rule score and the ids
/// of the broken rules, the scores of the features, and as composite their weighted sum. Its
/// decision goes by that composite: 80 points and more block, less than 50 pass, and what is in
/// between goes to review.
pub proof fn law_signal_fields(
    signal: FraudSignal,
    txn: &RawTransaction,
    features: &TransactionFeatures,
    rules: Seq<RuleView>,
    weights: Weights,
)
    requires
        is_signal_of(signal, txn, features, rules, weights),
    ensures
        signal.txn_id@ == txn.txn_id@,
        signal.account_id@ == txn.account_id@,
        signal.rule_score == rule_score(rules, txn, features),
        signal.triggered_rules@.map_values(|s: String| s@) == ids(triggered(rules, txn, features)),
        signal.velocity_score == features.velocity_score,
        signal.entropy_score == features.entropy_score,
        signal.composite_score == weights.rule * (signal.rule_score * POINT) + weights.velocity * (
        signal.velocity_score * POINT) + weights.entropy * signal.entropy_score,
        signal.decision == Decision::Block <==> signal.composite_score >= 80 * COMPOSITE_POINT,
        signal.decision == Decision::Review <==> 50 * COMPOSITE_POINT <= signal.composite_score < 80
            * COMPOSITE_POINT,
        signal.decision == Decision::Pass <==> signal.composite_score < 50 * COMPOSITE_POINT,
{
    let texts_of = signal.triggered_rules@.map_values(|s: String| s@);
    assert(texts_of =~= texts(signal.triggered_rules@));
    assert(signal@.triggered_rules == texts(signal.triggered_rules@));
    assert(signal@.composite_score == signal.composite_score);
    law_decision_matrix(signal.composite_score);
}

/// Two signals that show the same are the same in every field.
pub proof fn law_signal_view(signal: FraudSignal, other: FraudSignal)
    requires
        signal@ == other@,
    ensures
        signal.txn_id@ == other.txn_id@,
        signal.account_id@ == other.account_id@,
        signal.composite_score == other.composite_score,
        signal.decision == other.decision,
        signal.triggered_rules@.map_values(|s: String| s@) == other.triggered_rules@.map_values(
            |s: String| s@,
        ),
        signal.velocity_score == other.velocity_score,
        signal.entropy_score == other.entropy_score,
        signal.rule_score == other.rule_score,
        signal.evaluated_at_ms == other.evaluated_at_ms,
{
    assert(signal.triggered_rules@.map_values(|s: String| s@) =~= texts(signal.triggered_rules@));
    assert(other.triggered_rules@.map_values(|s: String| s@) =~= texts(other.triggered_rules@));
    assert(signal@.composite_score == other@.composite_score);
}

/// A transaction leads to a signal, stamped as it was, and is entered in the window, exactly where
/// there is a timestamp and its account's spend fits; otherwise nothing changes.
pub proof fn law_processing(
    before: ExtractorView,
    rules: Seq<RuleView>,
    weights: Weights,
    txn: &RawTransaction,
    entropy: u64,
    now: u64,
    stamp: Option<i64>,
    after: ExtractorView,
    signal: Option<FraudSignal>,
)
    requires
        processes(before, rules, weights, txn, entropy, now, stamp, after, signal),
    ensures
        evaluable(before, txn, now, stamp) <==> stamp is Some && before.spend_fits(txn, now),
        signal is Some <==> stamp is Some && before.spend_fits(txn, now),
        signal is Some ==> after == before.after(txn, now),
        signal is None ==> after == before,
        signal matches Some(found) ==> {
            &&& found.evaluated_at_ms == stamp->0
            &&& is_signal_of(found, txn, &before.features(txn, entropy, now), rules, weights)
        },
{
    if signal is Some {
        assert(signal->0@.evaluated_at_ms == stamp->0);
    }
}

/// A message without a transaction is skipped for its reason and changes nothing; one with a
/// transaction comes to what the transaction comes to.
pub proof fn law_message_processing(
    before: ExtractorView,
    rules: Seq<RuleView>,
    weights: Weights,
    payload: Payload,
    entropy: u64,
    now: u64,
    stamp: Option<i64>,
    after: ExtractorView,
    outcome: Result<FraudSignal, MessageError>,
)
    requires
        processes_message(before, rules, weights, payload, entropy, now, stamp, after, outcome),
    ensures
        outcome is Err ==> after == before,
        payload is Missing <==> outcome == Err::<FraudSignal, _>(MessageError::EmptyPayload),
        payload is Malformed <==> outcome == Err::<FraudSignal, _>(MessageError::Undecodable),
        payload matches Payload::Decoded(txn) ==> {
            &&& outcome is Ok <==> stamp is Some && before.spend_fits(&txn, now)
            &&& outcome is Err ==> outcome == Err::<FraudSignal, _>(MessageError::Unevaluable)
            &&& outcome is Ok ==> processes(
                before,
                rules,
                weights,
                &txn,
                entropy,
                now,
                stamp,
                after,
                Some(outcome->Ok_0),
            )
        },
{
}

/// Messages are taken one by one: each changes the state that those before it left, and adds its
/// signal, if it leads to one, after theirs.
pub proof fn law_messages_one_by_one(
    start: ExtractorView,
    rules: Seq<RuleView>,
    weights: Weights,
    messages: Seq<Message>,
    next: Message,
    outcome: Result<FraudSignal, MessageError>,
    after: ExtractorView,
)
    requires
        processes_message(
            state_after(start, messages),
            rules,
            weights,
            next.payload,
            next.entropy,
            next.now,
            next.stamp,
            after,
            outcome,
        ),
    ensures
        state_after(start, Seq::empty()) == start,
        signals_of(start, rules, weights, Seq::empty()).len() == 0,
        state_after(start, messages.push(next)) == after,
        signals_of(start, rules, weights, messages.push(next)) == match outcome {
            Ok(signal) => signals_of(start, rules, weights, messages).push(signal@),
            Err(_) => signals_of(start, rules, weights, messages),
        },
{
    assert(messages.push(next).drop_last() =~= messages);
}

/// The scores of a signal whose features an extractor found run from 0 to 100 points, and so does
/// its composite score, as long as the weights share out no more than the whole.
pub proof fn law_signal_scores_are_in_range(
    signal: FraudSignal,
    txn: &RawTransaction,
    extractor: ExtractorView,
    entropy: u64,
    now: u64,
    rules: Seq<RuleView>,
    weights: Weights,
)
    requires
        is_signal_of(signal, txn, &extractor.features(txn, entropy, now), rules, weights),
        weights.rule + weights.velocity + weights.entropy <= 100,
    ensures
        signal.rule_score <= 100,
        signal.velocity_score <= 100,
        signal.entropy_score <= 100 * POINT,
        signal.composite_score <= 100 * COMPOSITE_POINT,
{
    law_composite_range(weights, signal.rule_score, signal.velocity_score, signal.entropy_score);
}

/// A transaction that breaks no rule, on a calm account, passes, whatever the merchant's name and
/// as long as entropy weighs less than half.
pub proof fn law_quiet_transactions_pass(
    signal: FraudSignal,
    txn: &RawTransaction,
    features: &TransactionFeatures,
    rules: Seq<RuleView>,
    weights: Weights,
)
    requires
        is_signal_of(signal, txn, features, rules, weights),
        triggered(rules, txn, features).len() == 0,
        features.velocity_score == 0,
        features.entropy_score <= 100 * POINT,
        weights.entropy < 50,
    ensures
        signal.decision == Decision::Pass,
{
    assert(weights.entropy * features.entropy_score <= 49 * (100 * POINT)) by (nonlinear_arith)
        requires
            0 <= weights.entropy <= 49,
            0 <= features.entropy_score <= 100 * POINT,
    ;
    assert(weights.rule * (0 * POINT) == 0) by (nonlinear_arith);
    assert(weights.velocity * (0 * POINT) == 0) by (nonlinear_arith);
}

/// A transaction is never decided more mildly for looking more suspicious: with higher scores,
/// more transactions or more spend in the window, or a high-risk merchant, its composite score is
/// at least as high and its decision at least as severe.
pub proof fn law_more_suspicious_is_never_milder(
    txn: &RawTransaction,
    low: (FraudSignal, TransactionFeatures),
    high: (FraudSignal, TransactionFeatures),
    rules: Seq<RuleView>,
    weights: Weights,
)
    requires
        is_signal_of(low.0, txn, &low.1, rules, weights),
        is_signal_of(high.0, txn, &high.1, rules, weights),
        low.1.velocity_score <= high.1.velocity_score,
        low.1.entropy_score <= high.1.entropy_score,
        low.1.txn_count_60s <= high.1.txn_count_60s,
        low.1.spend_60s <= high.1.spend_60s,
        low.1.high_risk_mcc ==> high.1.high_risk_mcc,
    ensures
        low.0.rule_score <= high.0.rule_score,
        low.0.composite_score <= high.0.composite_score,
        severity_of(low.0.decision) <= severity_of(high.0.decision),
{
    law_rule_score_monotone(rules, (txn, &low.1), (txn, &high.1));
    law_composite_monotone(
        weights,
        (low.0.rule_score, low.0.velocity_score, low.0.entropy_score),
        (high.0.rule_score, high.0.velocity_score, high.0.entropy_score),
    );
    law_decision_monotone(low.0.composite_score, high.0.composite_score);
}

} // verus!
