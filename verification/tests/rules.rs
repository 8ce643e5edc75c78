use fraud_signal::rules::RuleEngine;
use fraud_signal::score::POINT;
use fraud_signal::types::{RawTransaction, TransactionFeatures};

const ZERO_DEVICE: &str = "00000000-0000-0000-0000-000000000000";

fn make_txn(mcc: u16, amount: u64, country: &str, device: &str) -> RawTransaction {
    RawTransaction {
        txn_id: "test-001".into(),
        account_id: "acct-abc".into(),
        merchant_name: "Shopify".into(),
        merchant_mcc: mcc,
        amount_cents: amount,
        currency: "CAD".into(),
        ip_address: "192.168.1.1".into(),
        device_fp: device.into(),
        timestamp_utc: 0,
        country_code: country.into(),
    }
}

fn quiet() -> TransactionFeatures {
    TransactionFeatures {
        velocity_score: 0,
        entropy_score: 0,
        txn_count_60s: 1,
        spend_60s: 1_000,
        high_risk_mcc: false,
    }
}

fn evaluate(txn: &RawTransaction, features: &TransactionFeatures) -> (u32, Vec<String>) {
    RuleEngine::default().evaluate(txn, features)
}

#[test]
fn test_rule_high_amount_foreign() {
    let engine = RuleEngine::default();
    let txn = make_txn(5411, 60_000, "NG", "dev-fp-001");
    let features = TransactionFeatures {
        velocity_score: 0,
        entropy_score: 0,
        txn_count_60s: 1,
        spend_60s: 60_000,
        high_risk_mcc: false,
    };
    let (score, triggered) = engine.evaluate(&txn, &features);
    assert!(triggered.contains(&"HIGH_AMOUNT_FOREIGN".into()));
    assert!(score >= 40);
}

#[test]
fn clean_transaction_breaks_no_rule() {
    let (score, triggered) = evaluate(&make_txn(5411, 4_999, "CA", "dev-fp-001"), &quiet());
    assert_eq!(score, 0);
    assert!(triggered.is_empty());
}

#[test]
fn foreign_amounts() {
    let foreign = |amount, country| evaluate(&make_txn(5411, amount, country, "d"), &quiet());
    assert_eq!(foreign(50_001, "NG"), (40, vec!["HIGH_AMOUNT_FOREIGN".to_string()]));
    assert_eq!(foreign(50_001, "CA"), (0, vec![]));
    assert_eq!(foreign(50_001, "US"), (0, vec![]));
    assert_eq!(foreign(50_001, "USA").0, 40);
    assert_eq!(foreign(50_001, "C").0, 40);
    assert_eq!(foreign(50_001, "").0, 40);
    assert_eq!(foreign(50_001, "us").0, 40);
    // 50000 cents are round, but not too much.
    assert_eq!(foreign(50_000, "NG"), (15, vec!["ROUND_AMOUNT".to_string()]));
}

#[test]
fn high_risk_category() {
    let features = TransactionFeatures { high_risk_mcc: true, ..quiet() };
    let outcome = evaluate(&make_txn(7995, 100, "CA", "d"), &features);
    assert_eq!(outcome, (30, vec!["HIGH_RISK_MCC".to_string()]));
}

#[test]
fn velocity_burst() {
    let burst = |count| {
        let features = TransactionFeatures { txn_count_60s: count, ..quiet() };
        evaluate(&make_txn(5411, 100, "CA", "d"), &features)
    };
    assert_eq!(burst(10), (0, vec![]));
    assert_eq!(burst(11), (35, vec!["VELOCITY_BURST".to_string()]));
}

#[test]
fn spend_burst() {
    let burst = |spend| {
        let features = TransactionFeatures { spend_60s: spend, ..quiet() };
        evaluate(&make_txn(5411, 100, "CA", "d"), &features)
    };
    assert_eq!(burst(100_000), (0, vec![]));
    assert_eq!(burst(100_001), (35, vec!["SPEND_BURST".to_string()]));
}

#[test]
fn round_amounts() {
    let round = |amount| evaluate(&make_txn(5411, amount, "CA", "d"), &quiet()).0;
    assert_eq!(round(0), 0);
    assert_eq!(round(10_000), 0);
    assert_eq!(round(20_000), 15);
    assert_eq!(round(20_001), 0);
    assert_eq!(round(1_000_000), 15);
}

#[test]
fn suspicious_devices() {
    let device = |fp| evaluate(&make_txn(5411, 100, "CA", fp), &quiet());
    let flagged = (20, vec!["SUSPICIOUS_DEVICE".to_string()]);
    assert_eq!(device("bot-17"), flagged);
    assert_eq!(device("bot-"), flagged);
    assert_eq!(device(ZERO_DEVICE), flagged);
    assert_eq!(device("bot"), (0, vec![]));
    assert_eq!(device("robot-1"), (0, vec![]));
    assert_eq!(device(""), (0, vec![]));
    assert_eq!(device("00000000-0000-0000-0000-00000000000"), (0, vec![]));
    assert_eq!(device("00000000-0000-0000-0000-0000000000000"), (0, vec![]));
}

#[test]
fn random_merchant_names() {
    let name = |entropy_score| {
        let features = TransactionFeatures { entropy_score, ..quiet() };
        evaluate(&make_txn(5411, 100, "CA", "d"), &features)
    };
    assert_eq!(name(70 * POINT), (0, vec![]));
    assert_eq!(name(70 * POINT + 1), (25, vec!["ENTROPY_MERCHANT".to_string()]));
}

#[test]
fn severities_add_up_to_a_hundred_at_most() {
    let features = TransactionFeatures {
        velocity_score: 95,
        entropy_score: 90 * POINT,
        txn_count_60s: 30,
        spend_60s: 2_000_000,
        high_risk_mcc: true,
    };
    let (score, triggered) = evaluate(&make_txn(7995, 100_000, "NG", "bot-1"), &features);
    assert_eq!(score, 100);
    assert_eq!(
        triggered,
        vec![
            "HIGH_AMOUNT_FOREIGN",
            "HIGH_RISK_MCC",
            "VELOCITY_BURST",
            "SPEND_BURST",
            "ROUND_AMOUNT",
            "SUSPICIOUS_DEVICE",
            "ENTROPY_MERCHANT",
        ]
    );
}

#[test]
fn two_broken_rules_add_up() {
    let (score, triggered) = evaluate(&make_txn(5411, 60_000, "NG", "bot-1"), &quiet());
    assert_eq!(score, 75);
    assert_eq!(triggered, vec!["HIGH_AMOUNT_FOREIGN", "ROUND_AMOUNT", "SUSPICIOUS_DEVICE"]);
}
