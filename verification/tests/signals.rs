use fraud_signal::consumer::{
    accept, needs_warning, next_step, MessageError, Payload, Received, Step,
};
use fraud_signal::emitter::SignalEmitter;
use fraud_signal::entropy::ENTROPY_BIT;
use fraud_signal::extractor::FeatureExtractor;
use fraud_signal::rules::RuleEngine;
use fraud_signal::score::{Decision, Weights, COMPOSITE_POINT, POINT};
use fraud_signal::signal::{
    assemble_signal, process_message, process_transaction, process_transaction_at,
};
use fraud_signal::types::{RawTransaction, TransactionFeatures};
use std::time::{SystemTime, UNIX_EPOCH};

fn txn(amount: u64, country: &str, device: &str) -> RawTransaction {
    RawTransaction {
        txn_id: "t-7".into(),
        account_id: "acct-7".into(),
        merchant_name: "Corner Shop".into(),
        merchant_mcc: 7995,
        amount_cents: amount,
        currency: "CAD".into(),
        ip_address: "10.0.0.1".into(),
        device_fp: device.into(),
        timestamp_utc: 0,
        country_code: country.into(),
    }
}

#[test]
fn signal_of_known_features() {
    let features = TransactionFeatures {
        velocity_score: 55,
        entropy_score: 10 * POINT,
        txn_count_60s: 9,
        spend_60s: 20_000,
        high_risk_mcc: true,
    };
    let signal = assemble_signal(
        txn(1_000, "CA", "bot-1"),
        &features,
        &RuleEngine::default(),
        &Weights::default(),
        123,
    );
    assert_eq!(signal.txn_id, "t-7");
    assert_eq!(signal.account_id, "acct-7");
    assert_eq!(signal.rule_score, 50);
    assert_eq!(signal.triggered_rules, vec!["HIGH_RISK_MCC", "SUSPICIOUS_DEVICE"]);
    assert_eq!(signal.velocity_score, 55);
    assert_eq!(signal.entropy_score, 10 * POINT);
    // 25 + 16.5 + 2
    assert_eq!(signal.composite_score, COMPOSITE_POINT * 87 / 2);
    assert_eq!(signal.decision, Decision::Pass);
    assert_eq!(signal.evaluated_at_ms, 123);
    assert!(!needs_warning(&signal));
}

#[test]
fn signal_that_blocks() {
    let features = TransactionFeatures {
        velocity_score: 95,
        entropy_score: 75 * POINT,
        txn_count_60s: 30,
        spend_60s: 500_000,
        high_risk_mcc: true,
    };
    let signal = assemble_signal(
        txn(60_000, "NG", "bot-1"),
        &features,
        &RuleEngine::default(),
        &Weights::default(),
        0,
    );
    // 50 + 28.5 + 15
    assert_eq!(signal.composite_score, COMPOSITE_POINT * 187 / 2);
    assert_eq!(signal.decision, Decision::Block);
    assert!(needs_warning(&signal));
}

#[test]
fn transactions_are_processed_by_the_system_clock() {
    let millis = || SystemTime::now().duration_since(UNIX_EPOCH).unwrap().as_millis() as i64;
    let mut extractor = FeatureExtractor::new();
    let rules = RuleEngine::default();
    let weights = Weights::default();
    let before = millis();
    let signal =
        process_transaction(&mut extractor, &rules, &weights, txn(100, "CA", "d"), 3 * ENTROPY_BIT)
            .unwrap();
    assert!(before <= signal.evaluated_at_ms && signal.evaluated_at_ms <= millis());
    assert_eq!(signal.entropy_score, POINT / 3 * 50);
    assert_eq!(signal.velocity_score, 0);
    assert_eq!(signal.rule_score, 30);
    assert_eq!(signal.decision, Decision::Pass);
    for _ in 0..3 {
        process_transaction(&mut extractor, &rules, &weights, txn(100, "CA", "d"), 0).unwrap();
    }
    let signal = process_transaction(&mut extractor, &rules, &weights, txn(100, "CA", "d"), 0);
    assert_eq!(signal.unwrap().velocity_score, 25);
}

#[test]
fn bursts_are_caught() {
    let mut extractor = FeatureExtractor::new();
    let rules = RuleEngine::default();
    let weights = Weights::default();
    let mut last = None;
    for _ in 0..30 {
        last = process_transaction(
            &mut extractor,
            &rules,
            &weights,
            txn(60_000, "NG", "bot-1"),
            6 * ENTROPY_BIT,
        );
    }
    let signal = last.unwrap();
    assert_eq!(signal.rule_score, 100);
    assert_eq!(signal.velocity_score, 95);
    assert_eq!(signal.decision, Decision::Block);
    // 50 + 28.5 + 20
    assert_eq!(signal.composite_score, COMPOSITE_POINT * 197 / 2);
}

#[test]
fn spend_that_does_not_fit_gives_no_signal() {
    let mut extractor = FeatureExtractor::new();
    let rules = RuleEngine::default();
    let weights = Weights::default();
    let first = process_transaction(&mut extractor, &rules, &weights, txn(u64::MAX, "CA", "d"), 0);
    assert!(first.is_some());
    let second = process_transaction(&mut extractor, &rules, &weights, txn(1, "CA", "d"), 0);
    assert!(second.is_none());
}

#[test]
fn consumer_steps() {
    assert_eq!(next_step(Received::Failed), Step::BackOff { millis: 100 });
    assert_eq!(next_step(Received::Message), Step::DispatchAndCommit);
}

#[test]
fn messages_without_a_transaction_are_skipped() {
    let missing = accept(Payload::Missing).unwrap_err();
    assert_eq!(missing, MessageError::EmptyPayload);
    assert_eq!(missing.message(), "Empty message payload");
    let malformed = accept(Payload::Malformed).unwrap_err();
    assert_eq!(malformed, MessageError::Undecodable);
    assert_eq!(malformed.message(), "Failed to deserialize transaction");
    assert_eq!(accept(Payload::Decoded(txn(5, "CA", "d"))).unwrap().amount_cents, 5);
}

#[test]
fn emitters_are_alike() {
    assert_eq!(SignalEmitter::new(), SignalEmitter::new());
}

#[test]
fn looking_more_suspicious_is_never_milder() {
    let calm = TransactionFeatures {
        velocity_score: 20,
        entropy_score: 0,
        txn_count_60s: 2,
        spend_60s: 20_000,
        high_risk_mcc: false,
    };
    let busy = TransactionFeatures {
        velocity_score: 90,
        entropy_score: 80 * POINT,
        txn_count_60s: 12,
        spend_60s: 200_000,
        high_risk_mcc: true,
    };
    let signal = |features| {
        let rules = RuleEngine::default();
        assemble_signal(txn(100, "CA", "d"), features, &rules, &Weights::default(), 0)
    };
    let (low, high) = (signal(&calm), signal(&busy));
    assert_eq!((low.rule_score, high.rule_score), (0, 100));
    assert!(low.composite_score < high.composite_score);
    assert_eq!((low.decision, high.decision), (Decision::Pass, Decision::Block));
}

#[test]
fn scores_stay_between_0_and_100_points() {
    let mut extractor = FeatureExtractor::new();
    let rules = RuleEngine::default();
    let weights = Weights { rule: 0, velocity: 0, entropy: 100 };
    let signal =
        process_transaction(&mut extractor, &rules, &weights, txn(9, "CA", "d"), u64::MAX).unwrap();
    assert_eq!(signal.entropy_score, 100 * POINT);
    assert_eq!(signal.composite_score, 100 * COMPOSITE_POINT);
}

#[test]
fn quiet_transactions_pass() {
    let mut extractor = FeatureExtractor::new();
    let mut quiet = txn(4_999, "CA", "d");
    quiet.merchant_mcc = 5411;
    let signal = process_transaction(
        &mut extractor,
        &RuleEngine::default(),
        &Weights::default(),
        quiet,
        4 * ENTROPY_BIT,
    )
    .unwrap();
    assert_eq!((signal.rule_score, signal.velocity_score), (0, 0));
    assert!(signal.triggered_rules.is_empty());
    // 4 bits are two thirds of a hundred points, of which a fifth counts.
    assert_eq!(signal.composite_score, COMPOSITE_POINT / 3 * 40);
    assert_eq!(signal.decision, Decision::Pass);
}

#[test]
fn transactions_are_processed_at_given_times() {
    let mut extractor = FeatureExtractor::new();
    let rules = RuleEngine::default();
    let weights = Weights::default();
    let mut process = |now, stamp| {
        let txn = txn(100, "CA", "d");
        process_transaction_at(&mut extractor, &rules, &weights, txn, 0, now, stamp)
    };
    for _ in 0..3 {
        process(1_000, Some(1_000_001)).unwrap();
    }
    // Without a timestamp nothing is entered.
    assert!(process(1_000, None).is_none());
    // The three earlier ones are 60 seconds old, and still count.
    let signal = process(1_060, Some(1_061_002)).unwrap();
    assert_eq!(signal.velocity_score, 25);
    assert_eq!(signal.evaluated_at_ms, 1_061_002);
    assert_eq!(process(1_061, Some(0)).unwrap().velocity_score, 0);
}

#[test]
fn messages_are_processed() {
    let mut extractor = FeatureExtractor::new();
    let rules = RuleEngine::default();
    let weights = Weights::default();
    let mut process = |payload| process_message(&mut extractor, &rules, &weights, payload, 0);
    assert_eq!(process(Payload::Missing).unwrap_err(), MessageError::EmptyPayload);
    assert_eq!(process(Payload::Malformed).unwrap_err(), MessageError::Undecodable);
    let signal = process(Payload::Decoded(txn(u64::MAX, "CA", "d"))).unwrap();
    assert_eq!(signal.txn_id, "t-7");
    assert_eq!(signal.velocity_score, 90);
    let refused = process(Payload::Decoded(txn(1, "CA", "d"))).unwrap_err();
    assert_eq!(refused, MessageError::Unevaluable);
    assert_eq!(refused.message(), "Transaction cannot be evaluated");
}

#[test]
fn refused_messages_have_no_part() {
    let rules = RuleEngine::default();
    let weights = Weights::default();
    let run = |with_refused: bool| {
        let mut extractor = FeatureExtractor::new();
        let mut scores = Vec::new();
        for _ in 0..5 {
            if with_refused {
                for payload in [Payload::Missing, Payload::Malformed] {
                    assert!(process_message(&mut extractor, &rules, &weights, payload, 9).is_err());
                }
            }
            let payload = Payload::Decoded(txn(7_000, "CA", "d"));
            let signal = process_message(&mut extractor, &rules, &weights, payload, 0).unwrap();
            scores.push((signal.rule_score, signal.velocity_score, signal.composite_score));
        }
        scores
    };
    assert_eq!(run(true), run(false));
    assert_eq!(run(true)[4].1, 45);
}
