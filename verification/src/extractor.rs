//! Feature extraction: the sliding window of every account, and what it says of a transaction.

use crate::clock::{clock_shows, unix_secs};
use crate::entropy::entropy_score;
use crate::types::{RawTransaction, TransactionFeatures};
use crate::window::{
    cutoff, enter, entries_of, history_of, in_order, kept, law_an_entry_adds_itself,
    law_spend_adds_up, law_window_is_the_recent_history, lemma_kept_by_age, lemma_kept_push,
    lemma_kept_twice, lemma_prefix_spends_less, record, total_spend, window_after, Event,
};
use vstd::hash_map::StringHashMap;
use vstd::prelude::*;

verus! {

/// Tracks the transactions of each account over a sliding window.
pub struct FeatureExtractor {
    /// The entries of each account that has been seen.
    window: StringHashMap<Vec<(u64, u64)>>,
    window_secs: u64,
    /// Merchant categories in which fraud is common.
    high_risk_mccs: Vec<u16>,
}

/// What a feature extractor holds.
#[verifier::ext_equal]
pub struct ExtractorView {
    /// The entries of each account that has been seen, oldest first: time in seconds, amount in
    /// cents.
    pub window: Map<Seq<char>, Seq<(u64, u64)>>,
    /// How long an entry counts, in seconds.
    pub window_secs: u64,
    /// Merchant categories in which fraud is common.
    pub high_risk_mccs: Seq<u16>,
}

impl View for FeatureExtractor {
    type V = ExtractorView;

    closed spec fn view(&self) -> ExtractorView {
        ExtractorView {
            window: self.window@.map_values(|entries: Vec<(u64, u64)>| entries@),
            window_secs: self.window_secs,
            high_risk_mccs: self.high_risk_mccs@,
        }
    }
}

impl ExtractorView {
    /// The entries of the transaction's account once the transaction has been entered at `now`.
    pub open spec fn entries_with(self, txn: &RawTransaction, now: u64) -> Seq<(u64, u64)> {
        record(
            entries_of(self.window, txn.account_id@),
            now,
            txn.amount_cents,
            self.window_secs,
        )
    }

    /// The extractor's state once the transaction has been entered at `now`.
    pub open spec fn after(self, txn: &RawTransaction, now: u64) -> ExtractorView {
        ExtractorView {
            window: enter(
                self.window,
                txn.account_id@,
                now,
                txn.amount_cents,
                self.window_secs,
            ),
            ..self
        }
    }

    /// Whether what the account spends within the window, the transaction at `now` among it, is
    /// a number of cents that 64 bits hold.
    pub open spec fn spend_fits(self, txn: &RawTransaction, now: u64) -> bool {
        total_spend(self.entries_with(txn, now)) <= u64::MAX
    }

    /// The features of the transaction, entered at `now`.
    pub open spec fn features(
        self,
        txn: &RawTransaction,
        entropy: u64,
        now: u64,
    ) -> TransactionFeatures {
        let entries = self.entries_with(txn, now);
        let count = entries.len() as u32;
        let spend = total_spend(entries) as u64;
        TransactionFeatures {
            velocity_score: velocity_score(count as int, spend as int) as u32,
            entropy_score: entropy_score(txn.merchant_name@, entropy as int) as u64,
            txn_count_60s: count,
            spend_60s: spend,
            high_risk_mcc: self.high_risk_mccs.contains(txn.merchant_mcc),
        }
    }

    /// What becomes of a transaction that is entered at `now`: its features and the state after
    /// it, or nothing at all if the spend does not fit.
    pub open spec fn extracts(
        self,
        txn: &RawTransaction,
        entropy: u64,
        now: u64,
        after: ExtractorView,
        features: Option<TransactionFeatures>,
    ) -> bool {
        if self.spend_fits(txn, now) {
            after == self.after(txn, now) && features == Some(self.features(txn, entropy, now))
        } else {
            after == self && features is None
        }
    }
}

/// How anomalous so many transactions in a window are.
pub open spec fn count_score(count: int) -> int {
    if count <= 3 {
        0
    } else if count <= 8 {
        25
    } else if count <= 15 {
        55
    } else if count <= 25 {
        75
    } else {
        95
    }
}

/// How anomalous a spend of so many whole dollars in a window is.
pub open spec fn spend_score(dollars: int) -> int {
    if dollars < 100 {
        0
    } else if dollars < 300 {
        20
    } else if dollars < 500 {
        45
    } else if dollars < 1000 {
        70
    } else {
        90
    }
}

/// The velocity score: the more anomalous of count and spend.
pub open spec fn velocity_score(count: int, spend_cents: int) -> int {
    let by_count = count_score(count);
    let by_spend = spend_score(spend_cents / 100);
    if by_count >= by_spend {
        by_count
    } else {
        by_spend
    }
}

/// What a new extractor holds.
pub open spec fn new_extractor() -> ExtractorView {
    ExtractorView {
        window: Map::empty(),
        window_secs: 60,
        high_risk_mccs: seq![6010u16, 6011, 6050, 7995, 5912, 5122, 4829],
    }
}

impl FeatureExtractor {
    /// An extractor that has seen no transaction yet.
    pub fn new() -> (extractor: FeatureExtractor)
        ensures
            extractor@ == new_extractor(),
            extractor@.window == Map::<Seq<char>, Seq<(u64, u64)>>::empty(),
            extractor@.window_secs == 60,
            extractor@.high_risk_mccs == seq![6010u16, 6011, 6050, 7995, 5912, 5122, 4829],
    {
        let extractor = FeatureExtractor {
            window: StringHashMap::new(),
            window_secs: 60,
            high_risk_mccs: vec![
                6010, 6011, 6050,  // cash and ATM
                7995,  // gambling
                5912, 5122,  // drug stores, where card-not-present fraud is common
                4829,  // wire transfers
            ],
        };
        assert(extractor@.window =~= Map::empty());
        assert(extractor@.high_risk_mccs =~= new_extractor().high_risk_mccs);
        extractor
    }

    /// Extracts the features of a transaction whose merchant name has so much entropy, and enters
    /// the transaction in the window at the time that the system clock shows. Where the account's
    /// spend would not fit in 64 bits, nothing is entered and there are no features.
    pub fn extract(&mut self, txn: &RawTransaction, entropy: u64) -> (features: Option<
        TransactionFeatures,
    >)
        ensures
            exists|now: u64|
                clock_shows(now) && #[trigger] old(self)@.extracts(
                    txn,
                    entropy,
                    now,
                    final(self)@,
                    features,
                ),
    {
        let now: u64 = unix_secs();
        let features = if self.spend_fits(txn, now) {
            Some(self.extract_at(txn, entropy, now))
        } else {
            None
        };
        assert(old(self)@.extracts(txn, entropy, now, self@, features));
        features
    }

    /// Extracts the features of a transaction whose merchant name has so much entropy, and enters
    /// the transaction in the window at `now`.
    pub fn extract_at(&mut self, txn: &RawTransaction, entropy: u64, now: u64) -> (features:
        TransactionFeatures)
        requires
            old(self)@.spend_fits(txn, now),
        ensures
            final(self)@ == old(self)@.after(txn, now),
            features == old(self)@.features(txn, entropy, now),
            ({
                let entries = if old(self)@.window.contains_key(txn.account_id@) {
                    old(self)@.window[txn.account_id@]
                } else {
                    Seq::empty()
                };
                let recent = entries.filter(
                    |entry: (u64, u64)| entry.0 + old(self)@.window_secs >= now,
                );
                &&& final(self)@.window == old(self)@.window.insert(
                    txn.account_id@,
                    recent.push((now, txn.amount_cents)),
                )
                &&& final(self)@.window_secs == old(self)@.window_secs
                &&& final(self)@.high_risk_mccs == old(self)@.high_risk_mccs
                &&& features.txn_count_60s == (recent.len() + 1) as u32
                &&& features.spend_60s == total_spend(recent) + txn.amount_cents
                &&& features.velocity_score == velocity_score(
                    features.txn_count_60s as int,
                    features.spend_60s as int,
                )
                &&& features.entropy_score == entropy_score(txn.merchant_name@, entropy as int)
                &&& features.high_risk_mcc == old(self)@.high_risk_mccs.contains(txn.merchant_mcc)
            }),
    {
        proof {
            law_features(self@, txn, entropy, now);
        }
        let mut entries = self.recent_entries(txn.account_id.as_str(), now);
        entries.push((now, txn.amount_cents));
        let txn_count: u32 = entries.len() as u32;
        let spend_total: u64 = match add_up(&entries) {
            Some(total) => total,
            None => 0,
        };
        let high_risk_mcc = self.is_high_risk(txn.merchant_mcc);
        self.window.insert(txn.account_id.clone(), entries);
        assert(self@.window =~= old(self)@.after(txn, now).window);
        TransactionFeatures {
            velocity_score: FeatureExtractor::velocity_to_score(txn_count, spend_total),
            entropy_score: FeatureExtractor::shannon_entropy_score(
                txn.merchant_name.as_str(),
                entropy,
            ),
            txn_count_60s: txn_count,
            spend_60s: spend_total,
            high_risk_mcc,
        }
    }

    /// Whether what the account spends within the window, the transaction at `now` among it, is
    /// a number of cents that 64 bits hold.
    pub fn spend_fits(&self, txn: &RawTransaction, now: u64) -> (fits: bool)
        ensures
            fits == self@.spend_fits(txn, now),
    {
        let mut entries = self.recent_entries(txn.account_id.as_str(), now);
        entries.push((now, txn.amount_cents));
        add_up(&entries).is_some()
    }

    /// The entries of an account that are still in the window at `now`.
    fn recent_entries(&self, account: &str, now: u64) -> (recent: Vec<(u64, u64)>)
        ensures
            recent@ == kept(
                entries_of(self@.window, account@),
                cutoff(now, self@.window_secs),
            ),
    {
        let earliest: u64 = now.saturating_sub(self.window_secs);
        match self.window.get(account) {
            Some(entries) => keep_recent(entries, earliest),
            None => {
                reveal(Seq::filter);
                Vec::new()
            },
        }
    }

    /// Whether the category is a high-risk one.
    fn is_high_risk(&self, mcc: u16) -> (yes: bool)
        ensures
            yes == self@.high_risk_mccs.contains(mcc),
    {
        let mut i: usize = 0;
        while i < self.high_risk_mccs.len()
            invariant
                i <= self.high_risk_mccs@.len(),
                forall|j: int| 0 <= j < i ==> self.high_risk_mccs@[j] != mcc,
            decreases self.high_risk_mccs@.len() - i,
        {
            if self.high_risk_mccs[i] == mcc {
                return true;
            }
            i = i + 1;
        }
        false
    }

    /// The velocity score of so many transactions, and so much spend, within a window.
    pub fn velocity_to_score(count: u32, spend_cents: u64) -> (score: u32)
        ensures
            score == velocity_score(count as int, spend_cents as int),
            score <= 100,
            score == 0 <==> count <= 3 && spend_cents < 10_000,
            score == 20 <==> count <= 3 && 10_000 <= spend_cents < 30_000,
            score == 25 <==> 4 <= count <= 8 && spend_cents < 30_000,
            score == 45 <==> count <= 8 && 30_000 <= spend_cents < 50_000,
            score == 55 <==> 9 <= count <= 15 && spend_cents < 50_000,
            score == 70 <==> count <= 15 && 50_000 <= spend_cents < 100_000,
            score == 75 <==> 16 <= count <= 25 && spend_cents < 100_000,
            score == 90 <==> count <= 25 && spend_cents >= 100_000,
            score == 95 <==> count >= 26,
    {
        let by_count: u32 = match count {
            0..=3 => 0,
            4..=8 => 25,
            9..=15 => 55,
            16..=25 => 75,
            _ => 95,
        };
        let spend_dollars: u64 = spend_cents / 100;
        let by_spend: u32 = match spend_dollars {
            0..=99 => 0,
            100..=299 => 20,
            300..=499 => 45,
            500..=999 => 70,
            _ => 90,
        };
        if by_count >= by_spend {
            by_count
        } else {
            by_spend
        }
    }
}

/// The entries that are not older than `earliest`.
fn keep_recent(entries: &Vec<(u64, u64)>, earliest: u64) -> (recent: Vec<(u64, u64)>)
    ensures
        recent@ == kept(entries@, earliest as int),
{
    let mut recent: Vec<(u64, u64)> = Vec::new();
    let mut i: usize = 0;
    proof {
        reveal(Seq::filter);
        assert(entries@.take(0) =~= Seq::empty());
    }
    while i < entries.len()
        invariant
            i <= entries@.len(),
            recent@ == kept(entries@.take(i as int), earliest as int),
        decreases entries@.len() - i,
    {
        proof {
            lemma_kept_push(
                entries@.take(i as int),
                entries@[i as int],
                earliest as int,
            );
            assert(entries@.take(i as int + 1) =~= entries@.take(i as int).push(
                entries@[i as int],
            ));
        }
        let entry = entries[i];
        if entry.0 >= earliest {
            recent.push(entry);
        }
        i = i + 1;
    }
    assert(entries@.take(entries@.len() as int) =~= entries@);
    recent
}

/// What the entries add up to, if 64 bits hold it.
fn add_up(entries: &Vec<(u64, u64)>) -> (total: Option<u64>)
    ensures
        total is Some <==> total_spend(entries@) <= u64::MAX,
        total matches Some(cents) ==> cents == total_spend(entries@),
{
    let mut total: u64 = 0;
    let mut i: usize = 0;
    assert(entries@.take(0) =~= Seq::empty());
    while i < entries.len()
        invariant
            i <= entries@.len(),
            total == total_spend(entries@.take(i as int)),
        decreases entries@.len() - i,
    {
        proof {
            assert(entries@.take(i as int + 1).drop_last() =~= entries@.take(i as int));
            lemma_prefix_spends_less(entries@, i as int + 1);
        }
        match total.checked_add(entries[i].1) {
            Some(sum) => {
                total = sum;
            },
            None => {
                return None;
            },
        }
        i = i + 1;
    }
    assert(entries@.take(entries@.len() as int) =~= entries@);
    Some(total)
}

/// The velocity score is what the count alone or what the spend alone scores, whichever is more.
pub proof fn law_velocity_is_the_larger_of_two(count: u32, spend_cents: u64)
    ensures
        ({
            let score = velocity_score(count as int, spend_cents as int);
            let by_count = velocity_score(count as int, 0);
            let by_spend = velocity_score(0, spend_cents as int);
            &&& score == by_count || score == by_spend
            &&& score >= by_count
            &&& score >= by_spend
        }),
{
}

/// What the count alone scores: nothing up to 3 transactions, 25 up to 8, 55 up to 15, 75 up to
/// 25, and 95 beyond.
pub proof fn law_velocity_by_count(count: u32)
    ensures
        velocity_score(count as int, 0) == 0 <==> count <= 3,
        velocity_score(count as int, 0) == 25 <==> 4 <= count <= 8,
        velocity_score(count as int, 0) == 55 <==> 9 <= count <= 15,
        velocity_score(count as int, 0) == 75 <==> 16 <= count <= 25,
        velocity_score(count as int, 0) == 95 <==> count >= 26,
{
}

/// What the spend alone scores: nothing below 100 dollars, 20 below 300, 45 below 500, 70 below
/// 1000, and 90 from there on.
pub proof fn law_velocity_by_spend(spend_cents: u64)
    ensures
        velocity_score(0, spend_cents as int) == 0 <==> spend_cents < 10_000,
        velocity_score(0, spend_cents as int) == 20 <==> 10_000 <= spend_cents < 30_000,
        velocity_score(0, spend_cents as int) == 45 <==> 30_000 <= spend_cents < 50_000,
        velocity_score(0, spend_cents as int) == 70 <==> 50_000 <= spend_cents < 100_000,
        velocity_score(0, spend_cents as int) == 90 <==> spend_cents >= 100_000,
{
}

/// More transactions or more spend never lower the velocity score, which runs from 0 to 95.
pub proof fn law_velocity_score_monotone(low: (u32, u64), high: (u32, u64))
    requires
        low.0 <= high.0,
        low.1 <= high.1,
    ensures
        0 <= velocity_score(low.0 as int, low.1 as int) <= velocity_score(
            high.0 as int,
            high.1 as int,
        ) <= 95,
{
}

/// Up to 3 transactions and less than 100 dollars in the window count as no anomaly.
pub proof fn law_calm_accounts_score_nothing(count: u32, spend_cents: u64)
    ensures
        velocity_score(count as int, spend_cents as int) == 0 <==> count <= 3 && spend_cents
            < 10_000,
{
}

/// What features are taken from, whatever the window holds: count and spend are those
/// of the account's entries that are at most `window_secs` seconds old and of the transaction,
/// the scores are those of count, spend and name, and the category is looked up.
pub proof fn law_features(
    before: ExtractorView,
    txn: &RawTransaction,
    entropy: u64,
    now: u64,
)
    ensures
        ({
            let features = before.features(txn, entropy, now);
            let entries = if before.window.contains_key(txn.account_id@) {
                before.window[txn.account_id@]
            } else {
                Seq::empty()
            };
            let recent = entries.filter(
                |entry: (u64, u64)| entry.0 + before.window_secs >= now,
            );
            &&& before.entries_with(txn, now) == recent.push((now, txn.amount_cents))
            &&& before.after(txn, now).window == before.window.insert(
                txn.account_id@,
                recent.push((now, txn.amount_cents)),
            )
            &&& before.after(txn, now).window_secs == before.window_secs
            &&& before.after(txn, now).high_risk_mccs == before.high_risk_mccs
            &&& before.spend_fits(txn, now) <==> total_spend(recent) + txn.amount_cents <= u64::MAX
            &&& features.txn_count_60s == (recent.len() + 1) as u32
            &&& before.spend_fits(txn, now) ==> features.spend_60s == total_spend(recent)
                + txn.amount_cents
            &&& features.velocity_score == velocity_score(
                features.txn_count_60s as int,
                features.spend_60s as int,
            )
            &&& features.entropy_score == entropy_score(txn.merchant_name@, entropy as int)
            &&& features.high_risk_mcc <==> exists|i: int|
                0 <= i < before.high_risk_mccs.len() && before.high_risk_mccs[i]
                    == txn.merchant_mcc
        }),
{
    let entries = entries_of(before.window, txn.account_id@);
    lemma_kept_by_age(entries, now, before.window_secs);
    law_spend_adds_up(
        kept(entries, cutoff(now, before.window_secs)),
        (now, txn.amount_cents),
    );
}

/// A transaction counts towards a later one of its account exactly if it is at most `window_secs`
/// seconds older: having been entered at `earlier_at`, it adds one entry and its amount to what the
/// later one finds, and beyond that age nothing. It adds nothing to those of other accounts.
pub proof fn law_a_transaction_counts_while_it_is_recent(
    before: ExtractorView,
    first: &RawTransaction,
    earlier_at: u64,
    second: &RawTransaction,
    now: u64,
)
    requires
        earlier_at <= now,
    ensures
        ({
            let with = before.after(first, earlier_at).entries_with(second, now);
            let without = before.entries_with(second, now);
            let counts = first.account_id@ == second.account_id@ && now - earlier_at
                <= before.window_secs;
            &&& counts ==> with.len() == without.len() + 1
            &&& counts ==> total_spend(with) == total_spend(without) + first.amount_cents
            &&& !counts ==> with == without
        }),
{
    let secs = before.window_secs;
    let entries = entries_of(before.window, second.account_id@);
    if first.account_id@ == second.account_id@ {
        let earlier = kept(entries, cutoff(earlier_at, secs));
        let entry = (earlier_at, first.amount_cents);
        law_an_entry_adds_itself(earlier, entry, now, second.amount_cents, secs);
        lemma_kept_twice(entries, cutoff(earlier_at, secs), cutoff(now, secs));
    }
}

/// What a new extractor holds: nothing has been seen, an entry counts for 60 seconds, and seven
/// categories are high-risk ones.
pub proof fn law_new_extractor(mcc: u16)
    ensures
        new_extractor().window == Map::<Seq<char>, Seq<(u64, u64)>>::empty(),
        new_extractor().window_secs == 60,
        new_extractor().high_risk_mccs.contains(mcc) <==> (mcc == 6010 || mcc == 6011 || mcc == 6050
            || mcc == 7995 || mcc == 5912 || mcc == 5122 || mcc == 4829),
{
    let all = new_extractor().high_risk_mccs;
    assert(all[0] == 6010 && all[1] == 6011 && all[2] == 6050 && all[3] == 7995);
    assert(all[4] == 5912 && all[5] == 5122 && all[6] == 4829);
}

/// A transaction is entered, with its features, exactly where its account's spend fits; where it
/// does not, nothing changes and there are no features.
pub proof fn law_extraction(
    before: ExtractorView,
    txn: &RawTransaction,
    entropy: u64,
    now: u64,
    after: ExtractorView,
    features: Option<TransactionFeatures>,
)
    requires
        before.extracts(txn, entropy, now, after, features),
    ensures
        features is Some <==> before.spend_fits(txn, now),
        features is Some ==> after == before.after(txn, now),
        features matches Some(found) ==> found == before.features(txn, entropy, now),
        features is None ==> after == before,
{
}

/// The entries kept at a time, for 60 seconds, are those at most 60 seconds old.
proof fn lemma_last_minute(entries: Seq<(u64, u64)>, now: u64)
    ensures
        kept(entries, cutoff(now, 60)) == entries.filter(
            |entry: (u64, u64)| now - entry.0 <= 60,
        ),
    decreases entries.len(),
{
    reveal(Seq::filter);
    if entries.len() > 0 {
        lemma_last_minute(entries.drop_last(), now);
    }
}

/// Count and spend are those of the account's last minute. Where the transactions `events` have
/// gone through an extractor, starting from a new one, and the account's clock never went back,
/// the next transaction's count is the number of the account's transactions that are at most 60
/// seconds old, itself among them, and its spend is what they add up to.
pub proof fn law_features_cover_the_last_minute(
    events: Seq<Event>,
    txn: &RawTransaction,
    entropy: u64,
    now: u64,
)
    requires
        in_order(history_of(events, txn.account_id@).push((now, txn.amount_cents))),
    ensures
        ({
            let before = ExtractorView { window: window_after(events, 60), ..new_extractor() };
            let event = Event { account: txn.account_id@, now, amount: txn.amount_cents };
            let recent = history_of(events, txn.account_id@).filter(
                |entry: (u64, u64)| now - entry.0 <= 60,
            );
            &&& before.after(txn, now) == ExtractorView {
                window: window_after(events.push(event), 60),
                ..new_extractor()
            }
            &&& before.features(txn, entropy, now).txn_count_60s == (recent.len() + 1) as u32
            &&& before.spend_fits(txn, now) <==> total_spend(recent) + txn.amount_cents <= u64::MAX
            &&& before.spend_fits(txn, now) ==> before.features(txn, entropy, now).spend_60s
                == total_spend(recent) + txn.amount_cents
        }),
{
    let account = txn.account_id@;
    let before = ExtractorView { window: window_after(events, 60), ..new_extractor() };
    let event = Event { account, now, amount: txn.amount_cents };
    let history = history_of(events, account);
    let recent = kept(history, cutoff(now, 60));
    lemma_last_minute(history, now);
    assert(events.push(event).drop_last() =~= events);
    assert(history_of(events.push(event), account) == history.push((now, txn.amount_cents)));
    law_window_is_the_recent_history(events.push(event), account, 60);
    lemma_kept_push(history, (now, txn.amount_cents), cutoff(now, 60));
    assert(before.entries_with(txn, now) == recent.push((now, txn.amount_cents)));
    assert(recent.push((now, txn.amount_cents)).drop_last() =~= recent);
}

} // verus!
