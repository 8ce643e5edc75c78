//! The rule engine: which rules a transaction breaks, and how severe that is.

use crate::score::POINT;
use crate::text::{begins_with, same_text, starts_with};
use crate::types::{RawTransaction, TransactionFeatures};
use vstd::prelude::*;

verus! {

broadcast use vstd::string::group_string_axioms;

/// When a rule is broken.
#[derive(Debug, Clone, Copy, PartialEq, Eq, Structural)]
pub enum Condition {
    /// More than 500 dollars from outside Canada and the United States.
    HighAmountForeign,
    /// The merchant's category is a high-risk one.
    HighRiskMcc,
    /// More than 10 transactions in the window.
    VelocityBurst,
    /// More than 1000 dollars in the window.
    SpendBurst,
    /// More than 100 dollars, in whole hundreds.
    RoundAmount,
    /// A device fingerprint that a bot or nobody left.
    SuspiciousDevice,
    /// An entropy score of more than 70 points.
    EntropyMerchant,
}

impl Condition {
    /// Whether the transaction, with its features, meets the condition.
    pub open spec fn holds(self, txn: &RawTransaction, features: &TransactionFeatures) -> bool {
        match self {
            Condition::HighAmountForeign => {
                &&& txn.amount_cents > 50_000
                &&& txn.country_code@ != "CA"@
                &&& txn.country_code@ != "US"@
            },
            Condition::HighRiskMcc => features.high_risk_mcc,
            Condition::VelocityBurst => features.txn_count_60s > 10,
            Condition::SpendBurst => features.spend_60s > 100_000,
            Condition::RoundAmount => txn.amount_cents > 10_000 && txn.amount_cents % 10_000 == 0,
            Condition::SuspiciousDevice => {
                ||| begins_with(txn.device_fp@, "bot-"@)
                ||| txn.device_fp@ == "00000000-0000-0000-0000-000000000000"@
            },
            Condition::EntropyMerchant => features.entropy_score > 70 * POINT,
        }
    }

    /// Whether the transaction, with its features, meets the condition.
    pub fn is_met(&self, txn: &RawTransaction, features: &TransactionFeatures) -> (met: bool)
        ensures
            met == self.holds(txn, features),
    {
        match self {
            Condition::HighAmountForeign => txn.amount_cents > 50_000 && !same_text(
                txn.country_code.as_str(),
                "CA",
            ) && !same_text(txn.country_code.as_str(), "US"),
            Condition::HighRiskMcc => features.high_risk_mcc,
            Condition::VelocityBurst => features.txn_count_60s > 10,
            Condition::SpendBurst => features.spend_60s > 100_000,
            Condition::RoundAmount => txn.amount_cents > 10_000 && txn.amount_cents % 10_000 == 0,
            Condition::SuspiciousDevice => starts_with(txn.device_fp.as_str(), "bot-")
                || same_text(
                txn.device_fp.as_str(),
                "00000000-0000-0000-0000-000000000000",
            ),
            Condition::EntropyMerchant => features.entropy_score > 70 * POINT,
        }
    }
}

/// A rule, and what breaking it adds to the rule score.
struct Rule {
    id: &'static str,
    severity: u32,
    condition: Condition,
}

/// A rule, for specifications.
pub struct RuleView {
    pub id: Seq<char>,
    /// Points added to the rule score.
    pub severity: u32,
    pub condition: Condition,
}

impl Rule {
    spec fn as_view(self) -> RuleView {
        RuleView { id: self.id@, severity: self.severity, condition: self.condition }
    }
}

/// The rules that transactions are held against, in order.
pub struct RuleEngine {
    rules: Vec<Rule>,
}

impl View for RuleEngine {
    type V = Seq<RuleView>;

    closed spec fn view(&self) -> Seq<RuleView> {
        self.rules@.map_values(|rule: Rule| rule.as_view())
    }
}

/// The rules in force.
pub open spec fn default_rules() -> Seq<RuleView> {
    seq![
        RuleView {
            id: "HIGH_AMOUNT_FOREIGN"@,
            severity: 40,
            condition: Condition::HighAmountForeign,
        },
        RuleView { id: "HIGH_RISK_MCC"@, severity: 30, condition: Condition::HighRiskMcc },
        RuleView { id: "VELOCITY_BURST"@, severity: 35, condition: Condition::VelocityBurst },
        RuleView { id: "SPEND_BURST"@, severity: 35, condition: Condition::SpendBurst },
        RuleView { id: "ROUND_AMOUNT"@, severity: 15, condition: Condition::RoundAmount },
        RuleView { id: "SUSPICIOUS_DEVICE"@, severity: 20, condition: Condition::SuspiciousDevice },
        RuleView { id: "ENTROPY_MERCHANT"@, severity: 25, condition: Condition::EntropyMerchant },
    ]
}

/// The rules that the transaction breaks, in order.
pub open spec fn triggered(
    rules: Seq<RuleView>,
    txn: &RawTransaction,
    features: &TransactionFeatures,
) -> Seq<RuleView> {
    rules.filter(|rule: RuleView| rule.condition.holds(txn, features))
}

/// The ids of rules, in order.
pub open spec fn ids(rules: Seq<RuleView>) -> Seq<Seq<char>> {
    rules.map_values(|rule: RuleView| rule.id)
}

/// The severities of rules, added up.
pub open spec fn total_severity(rules: Seq<RuleView>) -> nat
    decreases rules.len(),
{
    if rules.len() == 0 {
        0
    } else {
        total_severity(rules.drop_last()) + rules.last().severity as nat
    }
}

/// The rule score: the severities of the broken rules added up, to 100 points at most.
pub open spec fn rule_score(
    rules: Seq<RuleView>,
    txn: &RawTransaction,
    features: &TransactionFeatures,
) -> int {
    let total = total_severity(triggered(rules, txn, features));
    if total <= 100 {
        total as int
    } else {
        100
    }
}

/// The texts of strings, in order.
pub open spec fn texts(strings: Seq<String>) -> Seq<Seq<char>> {
    strings.map_values(|s: String| s@)
}

impl Default for RuleEngine {
    fn default() -> (engine: RuleEngine)
        ensures
            engine@ == default_rules(),
    {
        let engine = RuleEngine {
            rules: vec![
                Rule {
                    id: "HIGH_AMOUNT_FOREIGN",
                    severity: 40,
                    condition: Condition::HighAmountForeign,
                },
                Rule { id: "HIGH_RISK_MCC", severity: 30, condition: Condition::HighRiskMcc },
                Rule { id: "VELOCITY_BURST", severity: 35, condition: Condition::VelocityBurst },
                Rule { id: "SPEND_BURST", severity: 35, condition: Condition::SpendBurst },
                Rule { id: "ROUND_AMOUNT", severity: 15, condition: Condition::RoundAmount },
                Rule {
                    id: "SUSPICIOUS_DEVICE",
                    severity: 20,
                    condition: Condition::SuspiciousDevice,
                },
                Rule {
                    id: "ENTROPY_MERCHANT",
                    severity: 25,
                    condition: Condition::EntropyMerchant,
                },
            ],
        };
        assert(engine@ =~= default_rules());
        engine
    }
}

impl RuleEngine {
    /// Holds the transaction and its features against all rules: the rule score, and the ids of
    /// the rules that were broken, in order. Severities add up, to 100 points at most.
    pub fn evaluate(&self, txn: &RawTransaction, features: &TransactionFeatures) -> (outcome: (
        u32,
        Vec<String>,
    ))
        ensures
            outcome.0 == rule_score(self@, txn, features),
            outcome.0 <= 100,
            texts(outcome.1@) == ids(triggered(self@, txn, features)),
            outcome.1@.map_values(|s: String| s@) == ids(triggered(self@, txn, features)),
            self@ == default_rules() ==> (outcome.1@.map_values(|s: String| s@).contains(
                "HIGH_AMOUNT_FOREIGN"@,
            ) <==> (txn.amount_cents > 50_000
                && txn.country_code@ != "CA"@
                && txn.country_code@ != "US"@)),
            self@ == default_rules() ==> (outcome.1@.map_values(|s: String| s@).contains(
                "HIGH_RISK_MCC"@,
            ) <==> (features.high_risk_mcc)),
            self@ == default_rules() ==> (outcome.1@.map_values(|s: String| s@).contains(
                "VELOCITY_BURST"@,
            ) <==> (features.txn_count_60s > 10)),
            self@ == default_rules() ==> (outcome.1@.map_values(|s: String| s@).contains(
                "SPEND_BURST"@,
            ) <==> (features.spend_60s > 100_000)),
            self@ == default_rules() ==> (outcome.1@.map_values(|s: String| s@).contains(
                "ROUND_AMOUNT"@,
            ) <==> (txn.amount_cents > 10_000
                && txn.amount_cents % 10_000 == 0)),
            self@ == default_rules() ==> (outcome.1@.map_values(|s: String| s@).contains(
                "SUSPICIOUS_DEVICE"@,
            ) <==> (begins_with(txn.device_fp@, "bot-"@)
                || txn.device_fp@ == "00000000-0000-0000-0000-000000000000"@)),
            self@ == default_rules() ==> (outcome.1@.map_values(|s: String| s@).contains(
                "ENTROPY_MERCHANT"@,
            ) <==> (features.entropy_score > 70 * POINT)),
            self@ == default_rules() ==> ({
                let total: int = (if txn.amount_cents > 50_000 && txn.country_code@ != "CA"@
                    && txn.country_code@ != "US"@ {
                        40int
                    } else {
                        0
                    })
                    + (if features.high_risk_mcc {
                        30int
                    } else {
                        0
                    })
                    + (if features.txn_count_60s > 10 {
                        35int
                    } else {
                        0
                    })
                    + (if features.spend_60s > 100_000 {
                        35int
                    } else {
                        0
                    })
                    + (if txn.amount_cents > 10_000 && txn.amount_cents % 10_000 == 0 {
                        15int
                    } else {
                        0
                    })
                    + (if begins_with(txn.device_fp@, "bot-"@)
                        || txn.device_fp@ == "00000000-0000-0000-0000-000000000000"@ {
                        20int
                    } else {
                        0
                    })
                    + (if features.entropy_score > 70 * POINT {
                        25int
                    } else {
                        0
                    });
                outcome.0 == if total <= 100 {
                    total
                } else {
                    100
                }
            }),
    {
        let mut score: u32 = 0;
        let mut broken: Vec<String> = Vec::new();
        let mut i: usize = 0;
        proof {
            reveal(Seq::filter);
            assert(self@.take(0) =~= Seq::empty());
            assert(texts(broken@) =~= ids(triggered(self@.take(0), txn, features)));
        }
        while i < self.rules.len()
            invariant
                i <= self.rules@.len(),
                self@.len() == self.rules@.len(),
                score == rule_score(self@.take(i as int), txn, features),
                texts(broken@) == ids(triggered(self@.take(i as int), txn, features)),
            decreases self.rules@.len() - i,
        {
            let rule = &self.rules[i];
            proof {
                lemma_triggered_push(self@.take(i as int), self@[i as int], txn, features);
                assert(self@.take(i as int + 1) =~= self@.take(i as int).push(self@[i as int]));
            }
            if rule.condition.is_met(txn, features) {
                let ghost before = broken@;
                if score >= 100 || rule.severity >= 100 - score {
                    score = 100;
                } else {
                    score = score + rule.severity;
                }
                broken.push(rule.id.to_string());
                assert(texts(broken@) =~= texts(before).push(rule.id@));
            }
            i = i + 1;
        }
        proof {
            assert(self@.take(self@.len() as int) =~= self@);
            assert(broken@.map_values(|s: String| s@) =~= texts(broken@));
            if self@ == default_rules() {
                law_rules_in_force(txn, features);
                law_reported_rules_are_the_broken_ones(txn, features);
                let rules = default_rules();
                assert(rules[0].id == "HIGH_AMOUNT_FOREIGN"@);
                assert(rules[1].id == "HIGH_RISK_MCC"@);
                assert(rules[2].id == "VELOCITY_BURST"@);
                assert(rules[3].id == "SPEND_BURST"@);
                assert(rules[4].id == "ROUND_AMOUNT"@);
                assert(rules[5].id == "SUSPICIOUS_DEVICE"@);
                assert(rules[6].id == "ENTROPY_MERCHANT"@);
            }
        }
        (score, broken)
    }
}

/// What one more rule adds to the broken ones.
proof fn lemma_triggered_push(
    rules: Seq<RuleView>,
    rule: RuleView,
    txn: &RawTransaction,
    features: &TransactionFeatures,
)
    ensures
        triggered(rules.push(rule), txn, features) == if rule.condition.holds(txn, features) {
            triggered(rules, txn, features).push(rule)
        } else {
            triggered(rules, txn, features)
        },
        rule.condition.holds(txn, features) ==> ids(triggered(rules.push(rule), txn, features))
            == ids(triggered(rules, txn, features)).push(rule.id),
        rule.condition.holds(txn, features) ==> total_severity(
            triggered(rules.push(rule), txn, features),
        ) == total_severity(triggered(rules, txn, features)) + rule.severity,
{
    reveal(Seq::filter);
    assert(rules.push(rule).drop_last() =~= rules);
    let before = triggered(rules, txn, features);
    assert(before.push(rule).drop_last() =~= before);
    assert(ids(before.push(rule)) =~= ids(before).push(rule.id));
}

/// When the conditions hold, over the transaction and its features themselves.
pub proof fn law_conditions(txn: &RawTransaction, features: &TransactionFeatures)
    ensures
        Condition::HighAmountForeign.holds(txn, features) <==> (txn.amount_cents > 50_000
            && txn.country_code@ != "CA"@
            && txn.country_code@ != "US"@),
        Condition::HighRiskMcc.holds(txn, features) <==> (features.high_risk_mcc),
        Condition::VelocityBurst.holds(txn, features) <==> (features.txn_count_60s > 10),
        Condition::SpendBurst.holds(txn, features) <==> (features.spend_60s > 100_000),
        Condition::RoundAmount.holds(txn, features) <==> (txn.amount_cents > 10_000
            && txn.amount_cents % 10_000 == 0),
        Condition::SuspiciousDevice.holds(txn, features) <==> (begins_with(txn.device_fp@, "bot-"@)
            || txn.device_fp@ == "00000000-0000-0000-0000-000000000000"@),
        Condition::EntropyMerchant.holds(txn, features) <==> (features.entropy_score > 70 * POINT),
{
}

/// An amount is never too high: where a foreign amount breaks the rule on those, a higher one from
/// the same country does, and so does the same amount from any other foreign country.
pub proof fn law_higher_foreign_amounts_break_the_rule(
    txn: &RawTransaction,
    other: &RawTransaction,
    features: &TransactionFeatures,
    other_features: &TransactionFeatures,
)
    requires
        Condition::HighAmountForeign.holds(txn, features),
        other.amount_cents >= txn.amount_cents,
        other.country_code@ != "CA"@,
        other.country_code@ != "US"@,
    ensures
        Condition::HighAmountForeign.holds(other, other_features),
        ids(triggered(default_rules(), other, other_features)).contains("HIGH_AMOUNT_FOREIGN"@),
{
    law_reported_rules_are_the_broken_ones(other, other_features);
    assert(default_rules()[0].id == "HIGH_AMOUNT_FOREIGN"@);
}

/// The rules in force, over the transaction and its features themselves: which ids are reported,
/// in which order, and what they add up to.
pub proof fn law_rules_in_force(txn: &RawTransaction, features: &TransactionFeatures)
    ensures
        ids(triggered(default_rules(), txn, features)) == Seq::<Seq<char>>::empty()
            + (if txn.amount_cents > 50_000 && txn.country_code@ != "CA"@
                && txn.country_code@ != "US"@ {
            seq!["HIGH_AMOUNT_FOREIGN"@]
        } else {
            Seq::empty()
        })
            + (if features.high_risk_mcc {
            seq!["HIGH_RISK_MCC"@]
        } else {
            Seq::empty()
        })
            + (if features.txn_count_60s > 10 {
            seq!["VELOCITY_BURST"@]
        } else {
            Seq::empty()
        })
            + (if features.spend_60s > 100_000 {
            seq!["SPEND_BURST"@]
        } else {
            Seq::empty()
        })
            + (if txn.amount_cents > 10_000 && txn.amount_cents % 10_000 == 0 {
            seq!["ROUND_AMOUNT"@]
        } else {
            Seq::empty()
        })
            + (if begins_with(txn.device_fp@, "bot-"@)
                || txn.device_fp@ == "00000000-0000-0000-0000-000000000000"@ {
            seq!["SUSPICIOUS_DEVICE"@]
        } else {
            Seq::empty()
        })
            + (if features.entropy_score > 70 * POINT {
            seq!["ENTROPY_MERCHANT"@]
        } else {
            Seq::empty()
        }),
        ({
            let total: int = (if txn.amount_cents > 50_000 && txn.country_code@ != "CA"@
                && txn.country_code@ != "US"@ {
                    40int
                } else {
                    0
                })
                + (if features.high_risk_mcc {
                    30int
                } else {
                    0
                })
                + (if features.txn_count_60s > 10 {
                    35int
                } else {
                    0
                })
                + (if features.spend_60s > 100_000 {
                    35int
                } else {
                    0
                })
                + (if txn.amount_cents > 10_000 && txn.amount_cents % 10_000 == 0 {
                    15int
                } else {
                    0
                })
                + (if begins_with(txn.device_fp@, "bot-"@)
                    || txn.device_fp@ == "00000000-0000-0000-0000-000000000000"@ {
                    20int
                } else {
                    0
                })
                + (if features.entropy_score > 70 * POINT {
                    25int
                } else {
                    0
                });
            &&& total_severity(triggered(default_rules(), txn, features)) == total
            &&& rule_score(default_rules(), txn, features) == if total <= 100 {
                total
            } else {
                100
            }
        }),
{
    let rules = default_rules();
    reveal(Seq::filter);
    assert(rules.take(0) =~= Seq::empty());
    let none = Seq::<Seq<char>>::empty();
    let r0 = none;
    assert(ids(triggered(rules.take(0), txn, features)) =~= r0);
    let r1 = r0 + (if txn.amount_cents > 50_000 && txn.country_code@ != "CA"@
        && txn.country_code@ != "US"@ {
        seq!["HIGH_AMOUNT_FOREIGN"@]
    } else {
        none
    });
    lemma_triggered_push(rules.take(0), rules[0], txn, features);
    assert(rules.take(1) =~= rules.take(0).push(rules[0]));
    assert(ids(triggered(rules.take(1), txn, features)) =~= r1);
    let r2 = r1 + (if features.high_risk_mcc {
        seq!["HIGH_RISK_MCC"@]
    } else {
        none
    });
    lemma_triggered_push(rules.take(1), rules[1], txn, features);
    assert(rules.take(2) =~= rules.take(1).push(rules[1]));
    assert(ids(triggered(rules.take(2), txn, features)) =~= r2);
    let r3 = r2 + (if features.txn_count_60s > 10 {
        seq!["VELOCITY_BURST"@]
    } else {
        none
    });
    lemma_triggered_push(rules.take(2), rules[2], txn, features);
    assert(rules.take(3) =~= rules.take(2).push(rules[2]));
    assert(ids(triggered(rules.take(3), txn, features)) =~= r3);
    let r4 = r3 + (if features.spend_60s > 100_000 {
        seq!["SPEND_BURST"@]
    } else {
        none
    });
    lemma_triggered_push(rules.take(3), rules[3], txn, features);
    assert(rules.take(4) =~= rules.take(3).push(rules[3]));
    assert(ids(triggered(rules.take(4), txn, features)) =~= r4);
    let r5 = r4 + (if txn.amount_cents > 10_000 && txn.amount_cents % 10_000 == 0 {
        seq!["ROUND_AMOUNT"@]
    } else {
        none
    });
    lemma_triggered_push(rules.take(4), rules[4], txn, features);
    assert(rules.take(5) =~= rules.take(4).push(rules[4]));
    assert(ids(triggered(rules.take(5), txn, features)) =~= r5);
    let r6 = r5 + (if begins_with(txn.device_fp@, "bot-"@)
        || txn.device_fp@ == "00000000-0000-0000-0000-000000000000"@ {
        seq!["SUSPICIOUS_DEVICE"@]
    } else {
        none
    });
    lemma_triggered_push(rules.take(5), rules[5], txn, features);
    assert(rules.take(6) =~= rules.take(5).push(rules[5]));
    assert(ids(triggered(rules.take(6), txn, features)) =~= r6);
    let r7 = r6 + (if features.entropy_score > 70 * POINT {
        seq!["ENTROPY_MERCHANT"@]
    } else {
        none
    });
    lemma_triggered_push(rules.take(6), rules[6], txn, features);
    assert(rules.take(7) =~= rules.take(6).push(rules[6]));
    assert(ids(triggered(rules.take(7), txn, features)) =~= r7);
    assert(rules.take(7) =~= rules);
}

/// One more rule is reported last, and adds its severity, exactly if it is broken; the rule score
/// follows, to 100 points at most; and no rules report and score nothing.
pub proof fn law_one_more_rule(
    rules: Seq<RuleView>,
    rule: RuleView,
    txn: &RawTransaction,
    features: &TransactionFeatures,
)
    ensures
        ids(triggered(Seq::empty(), txn, features)).len() == 0,
        rule_score(Seq::empty(), txn, features) == 0,
        !rule.condition.holds(txn, features) ==> triggered(rules.push(rule), txn, features)
            == triggered(rules, txn, features),
        rule.condition.holds(txn, features) ==> ids(triggered(rules.push(rule), txn, features))
            == ids(triggered(rules, txn, features)).push(rule.id),
        rule.condition.holds(txn, features) ==> rule_score(rules.push(rule), txn, features) == if rule_score(
            rules,
            txn,
            features,
        ) + rule.severity <= 100 {
            rule_score(rules, txn, features) + rule.severity
        } else {
            100
        },
        0 <= rule_score(rules, txn, features) <= 100,
{
    reveal(Seq::filter);
    lemma_triggered_push(rules, rule, txn, features);
}

/// The texts of strings are theirs, one by one.
pub proof fn law_texts(strings: Seq<String>)
    ensures
        texts(strings).len() == strings.len(),
        forall|i: int| 0 <= i < strings.len() ==> #[trigger] texts(strings)[i] == strings[i]@,
{
}

/// A rule is reported exactly when its condition holds, and each at most once: the ids in force
/// differ from one another.
pub proof fn law_reported_rules_are_the_broken_ones(
    txn: &RawTransaction,
    features: &TransactionFeatures,
)
    ensures
        forall|i: int|
            0 <= i < default_rules().len() ==> (ids(
                triggered(default_rules(), txn, features),
            ).contains((#[trigger] default_rules()[i]).id) <==> default_rules()[i].condition.holds(
                txn,
                features,
            )),
        ids(triggered(default_rules(), txn, features)).no_duplicates(),
{
    lemma_default_ids_differ();
    lemma_reported(default_rules(), txn, features);
}

/// The rules in force have different ids, and each has some severity.
proof fn lemma_default_ids_differ()
    ensures
        default_rules().len() == 7,
        ids(default_rules()).no_duplicates(),
        forall|i: int| 0 <= i < 7 ==> (#[trigger] default_rules()[i]).severity > 0,
{
    reveal_strlit("HIGH_AMOUNT_FOREIGN");
    reveal_strlit("HIGH_RISK_MCC");
    reveal_strlit("VELOCITY_BURST");
    reveal_strlit("SPEND_BURST");
    reveal_strlit("ROUND_AMOUNT");
    reveal_strlit("SUSPICIOUS_DEVICE");
    reveal_strlit("ENTROPY_MERCHANT");
    // No two of them are of the same length.
    let all = ids(default_rules());
    assert(all[0].len() == 19);
    assert(all[1].len() == 13);
    assert(all[2].len() == 14);
    assert(all[3].len() == 11);
    assert(all[4].len() == 12);
    assert(all[5].len() == 17);
    assert(all[6].len() == 16);
}

/// Among rules of different ids, those whose condition holds are reported, and no others.
proof fn lemma_reported(
    rules: Seq<RuleView>,
    txn: &RawTransaction,
    features: &TransactionFeatures,
)
    requires
        ids(rules).no_duplicates(),
    ensures
        forall|i: int|
            0 <= i < rules.len() ==> (ids(triggered(rules, txn, features)).contains(
                (#[trigger] rules[i]).id,
            ) <==> rules[i].condition.holds(txn, features)),
        forall|id: Seq<char>| #[trigger]
            ids(triggered(rules, txn, features)).contains(id) ==> ids(rules).contains(id),
        ids(triggered(rules, txn, features)).no_duplicates(),
    decreases rules.len(),
{
    reveal(Seq::filter);
    let all = ids(triggered(rules, txn, features));
    if rules.len() > 0 {
        let rest = rules.drop_last();
        let last = rules.last();
        let reported = ids(triggered(rest, txn, features));
        assert(rules =~= rest.push(last));
        lemma_triggered_push(rest, last, txn, features);
        assert forall|i: int, j: int|
            0 <= i < ids(rest).len() && 0 <= j < ids(rest).len() && i != j implies ids(rest)[i]
            != ids(rest)[j] by {
            assert(ids(rest)[i] == ids(rules)[i]);
            assert(ids(rest)[j] == ids(rules)[j]);
        }
        lemma_reported(rest, txn, features);
        assert(!ids(rest).contains(last.id)) by {
            if ids(rest).contains(last.id) {
                let i = choose|i: int| 0 <= i < ids(rest).len() && ids(rest)[i] == last.id;
                assert(ids(rules)[i] == ids(rules)[rules.len() - 1]);
            }
        }
        assert(!reported.contains(last.id));
        assert forall|i: int| 0 <= i < rules.len() implies (all.contains((#[trigger] rules[i]).id)
            <==> rules[i].condition.holds(txn, features)) by {
            if i < rest.len() {
                assert(rest[i] == rules[i]);
                assert(ids(rules)[i] != ids(rules)[rules.len() - 1]);
                if reported.contains(rules[i].id) {
                    let k = choose|k: int| 0 <= k < reported.len() && reported[k] == rules[i].id;
                    assert(all[k] == rules[i].id);
                }
                if all.contains(rules[i].id) {
                    let k = choose|k: int| 0 <= k < all.len() && all[k] == rules[i].id;
                    assert(reported[k] == rules[i].id);
                }
            } else if last.condition.holds(txn, features) {
                assert(all[reported.len() as int] == last.id);
            }
        }
        assert forall|id: Seq<char>| #[trigger] all.contains(id) implies ids(rules).contains(
            id,
        ) by {
            let k = choose|k: int| 0 <= k < all.len() && all[k] == id;
            if k < reported.len() {
                assert(reported[k] == id);
                assert(reported.contains(id));
                let i = choose|i: int| 0 <= i < ids(rest).len() && ids(rest)[i] == id;
                assert(ids(rules)[i] == id);
            } else {
                assert(ids(rules)[rules.len() - 1] == id);
            }
        }
        assert forall|i: int, j: int|
            0 <= i < all.len() && 0 <= j < all.len() && i != j implies all[i] != all[j] by {
            if i < reported.len() {
                assert(reported.contains(reported[i]));
            }
            if j < reported.len() {
                assert(reported.contains(reported[j]));
            }
        }
    }
}

/// The rule score is 0 exactly when no rule is broken.
pub proof fn law_clean_transactions_score_nothing(
    txn: &RawTransaction,
    features: &TransactionFeatures,
)
    ensures
        rule_score(default_rules(), txn, features) == 0 <==> triggered(
            default_rules(),
            txn,
            features,
        ).len() == 0,
{
    lemma_default_ids_differ();
    let broken = triggered(default_rules(), txn, features);
    if broken.len() > 0 {
        let met = |rule: RuleView| rule.condition.holds(txn, features);
        default_rules().lemma_filter_contains_rev(met, broken.last());
        let i = choose|i: int| 0 <= i < default_rules().len() && default_rules()[i] == broken.last();
        assert(default_rules()[i].severity > 0);
    }
}

/// A transaction that breaks every rule that another one breaks scores at least as much.
pub proof fn law_rule_score_monotone(
    rules: Seq<RuleView>,
    low: (&RawTransaction, &TransactionFeatures),
    high: (&RawTransaction, &TransactionFeatures),
)
    requires
        forall|i: int|
            0 <= i < rules.len() && (#[trigger] rules[i]).condition.holds(low.0, low.1)
                ==> rules[i].condition.holds(high.0, high.1),
    ensures
        rule_score(rules, low.0, low.1) <= rule_score(rules, high.0, high.1),
        total_severity(triggered(rules, low.0, low.1)) <= total_severity(
            triggered(rules, high.0, high.1),
        ),
    decreases rules.len(),
{
    reveal(Seq::filter);
    if rules.len() > 0 {
        let rest = rules.drop_last();
        let last = rules.last();
        assert(rules =~= rest.push(last));
        assert forall|i: int|
            0 <= i < rest.len() && (#[trigger] rest[i]).condition.holds(
                low.0,
                low.1,
            ) implies rest[i].condition.holds(high.0, high.1) by {
            assert(rest[i] == rules[i]);
        }
        law_rule_score_monotone(rest, low, high);
        lemma_triggered_push(rest, last, low.0, low.1);
        lemma_triggered_push(rest, last, high.0, high.1);
        assert(rules[rules.len() - 1] == last);
    }
}

} // verus!
