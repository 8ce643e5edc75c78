//! What comes in, what is known of it, and what goes out.

use crate::score::Decision;
use vstd::prelude::*;

verus! {

/// A transaction as it arrives.
#[derive(Debug)]
pub struct RawTransaction {
    pub txn_id: String,
    pub account_id: String,
    pub merchant_name: String,
    pub merchant_mcc: u16,
    pub amount_cents: u64,
    pub currency: String,
    pub ip_address: String,
    pub device_fp: String,
    pub timestamp_utc: i64,
    pub country_code: String,
}

/// What is known of a transaction besides itself.
#[derive(Debug, Clone, Copy, PartialEq, Eq, Structural)]
pub struct TransactionFeatures {
    /// Velocity anomaly score, from 0 to 100 points.
    pub velocity_score: u32,
    /// Entropy score of the merchant name, from 0 to 100 times `POINT`.
    pub entropy_score: u64,
    /// Number of transactions from this account in the last 60 seconds.
    pub txn_count_60s: u32,
    /// Total spend from this account in the last 60 seconds, in cents.
    pub spend_60s: u64,
    /// Whether the merchant's category is a high-risk one.
    pub high_risk_mcc: bool,
}

/// The verdict on a transaction.
#[derive(Debug)]
pub struct FraudSignal {
    pub txn_id: String,
    pub account_id: String,
    /// The weighted sum of the three scores, in units of which `COMPOSITE_POINT` make a point.
    pub composite_score: u128,
    pub decision: Decision,
    /// The ids of the rules that the transaction broke, in the order of the rules.
    pub triggered_rules: Vec<String>,
    /// In points.
    pub velocity_score: u32,
    /// In units of which `POINT` make a point.
    pub entropy_score: u64,
    /// In points.
    pub rule_score: u32,
    /// Milliseconds since the Unix epoch.
    pub evaluated_at_ms: i64,
}

} // verus!
