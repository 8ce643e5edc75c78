use fraud_signal::extractor::FeatureExtractor;
use fraud_signal::types::RawTransaction;
use std::time::{SystemTime, UNIX_EPOCH};

fn txn(account: &str, amount: u64, mcc: u16) -> RawTransaction {
    RawTransaction {
        txn_id: "t-1".into(),
        account_id: account.into(),
        merchant_name: "Corner Shop".into(),
        merchant_mcc: mcc,
        amount_cents: amount,
        currency: "CAD".into(),
        ip_address: "10.0.0.1".into(),
        device_fp: "dev-1".into(),
        timestamp_utc: 0,
        country_code: "CA".into(),
    }
}

#[test]
fn velocity_by_count() {
    let score = |count| FeatureExtractor::velocity_to_score(count, 0);
    assert_eq!([score(0), score(3), score(4), score(8), score(9)], [0, 0, 25, 25, 55]);
    assert_eq!([score(15), score(16), score(25), score(26)], [55, 75, 75, 95]);
    assert_eq!(score(u32::MAX), 95);
}

#[test]
fn velocity_by_spend() {
    let score = |cents| FeatureExtractor::velocity_to_score(0, cents);
    assert_eq!([score(0), score(9_999), score(10_000), score(29_999)], [0, 0, 20, 20]);
    assert_eq!([score(30_000), score(49_999), score(50_000)], [45, 45, 70]);
    assert_eq!([score(99_999), score(100_000), score(u64::MAX)], [70, 90, 90]);
}

#[test]
fn velocity_is_the_larger_of_the_two() {
    assert_eq!(FeatureExtractor::velocity_to_score(9, 60_000), 70);
    assert_eq!(FeatureExtractor::velocity_to_score(26, 60_000), 95);
    assert_eq!(FeatureExtractor::velocity_to_score(9, 20_000), 55);
}

#[test]
fn first_transaction_of_an_account() {
    let mut extractor = FeatureExtractor::new();
    let features = extractor.extract_at(&txn("a", 12_345, 5411), 0, 1_000);
    assert_eq!(features.txn_count_60s, 1);
    assert_eq!(features.spend_60s, 12_345);
    assert_eq!(features.velocity_score, 20);
    assert_eq!(features.entropy_score, 0);
    assert!(!features.high_risk_mcc);
}

#[test]
fn window_slides() {
    let mut extractor = FeatureExtractor::new();
    extractor.extract_at(&txn("a", 100, 5411), 0, 1_000);
    extractor.extract_at(&txn("a", 200, 5411), 0, 1_030);
    // An entry counts for 60 seconds, the sixtieth among them.
    let features = extractor.extract_at(&txn("a", 400, 5411), 0, 1_060);
    assert_eq!((features.txn_count_60s, features.spend_60s), (3, 700));
    let features = extractor.extract_at(&txn("a", 800, 5411), 0, 1_061);
    assert_eq!((features.txn_count_60s, features.spend_60s), (3, 1_400));
    let features = extractor.extract_at(&txn("a", 1_600, 5411), 0, 2_000);
    assert_eq!((features.txn_count_60s, features.spend_60s), (1, 1_600));
}

#[test]
fn window_near_the_epoch() {
    let mut extractor = FeatureExtractor::new();
    extractor.extract_at(&txn("a", 1, 5411), 0, 0);
    let features = extractor.extract_at(&txn("a", 2, 5411), 0, 59);
    assert_eq!((features.txn_count_60s, features.spend_60s), (2, 3));
}

#[test]
fn accounts_are_independent() {
    let mut extractor = FeatureExtractor::new();
    extractor.extract_at(&txn("a", 100, 5411), 0, 1_000);
    let features = extractor.extract_at(&txn("b", 200, 5411), 0, 1_001);
    assert_eq!((features.txn_count_60s, features.spend_60s), (1, 200));
    let features = extractor.extract_at(&txn("a", 300, 5411), 0, 1_002);
    assert_eq!((features.txn_count_60s, features.spend_60s), (2, 400));
}

#[test]
fn high_risk_categories() {
    let mut extractor = FeatureExtractor::new();
    for mcc in [6010, 6011, 6050, 7995, 5912, 5122, 4829] {
        assert!(extractor.extract_at(&txn("a", 1, mcc), 0, 0).high_risk_mcc);
    }
    for mcc in [0, 5411, 6012, u16::MAX] {
        assert!(!extractor.extract_at(&txn("a", 1, mcc), 0, 0).high_risk_mcc);
    }
}

#[test]
fn spend_that_does_not_fit_is_not_entered() {
    let mut extractor = FeatureExtractor::new();
    assert!(extractor.spend_fits(&txn("a", u64::MAX, 5411), 10));
    assert!(extractor.extract(&txn("a", u64::MAX, 5411), 0).is_some());
    assert!(extractor.extract(&txn("a", 1, 5411), 0).is_none());
    assert!(extractor.extract(&txn("b", 1, 5411), 0).is_some());
    let features = extractor.extract(&txn("a", 0, 5411), 0).unwrap();
    assert_eq!((features.txn_count_60s, features.spend_60s), (2, u64::MAX));
}

#[test]
fn extraction_goes_by_the_system_clock() {
    let now = SystemTime::now().duration_since(UNIX_EPOCH).unwrap().as_secs();
    let mut extractor = FeatureExtractor::new();
    extractor.extract_at(&txn("a", 100, 5411), 0, now - 120);
    extractor.extract_at(&txn("a", 200, 5411), 0, now);
    let features = extractor.extract(&txn("a", 400, 5411), 0).unwrap();
    assert_eq!((features.txn_count_60s, features.spend_60s), (2, 600));
    // What was entered by the clock has expired two minutes later.
    let features = extractor.extract_at(&txn("a", 800, 5411), 0, now + 180);
    assert_eq!((features.txn_count_60s, features.spend_60s), (1, 800));
}

#[test]
fn entropy_goes_into_the_features() {
    let mut extractor = FeatureExtractor::new();
    let mut nameless = txn("a", 1, 5411);
    nameless.merchant_name = String::new();
    let features = extractor.extract_at(&nameless, 0, 0);
    assert_eq!(features.entropy_score, 100 * fraud_signal::score::POINT);
}
