//! The sliding window: which transactions of an account still count, and what they add up to.
//!
//! An account's entries are pairs of a time in seconds and an amount in cents, oldest first.

use vstd::prelude::*;

verus! {

/// The earliest time that is still in a window of `secs` seconds that ends at `now`.
pub open spec fn cutoff(now: u64, secs: u64) -> int {
    if now >= secs {
        now - secs
    } else {
        0
    }
}

/// The entries that are not older than `earliest`.
pub open spec fn kept(entries: Seq<(u64, u64)>, earliest: int) -> Seq<(u64, u64)> {
    entries.filter(|entry: (u64, u64)| entry.0 >= earliest)
}

/// An account's entries once a transaction at `now` has been entered: expired ones are gone, and
/// the new one is last.
pub open spec fn record(entries: Seq<(u64, u64)>, now: u64, amount: u64, secs: u64) -> Seq<
    (u64, u64),
> {
    kept(entries, cutoff(now, secs)).push((now, amount))
}

/// What the entries add up to, in cents.
pub open spec fn total_spend(entries: Seq<(u64, u64)>) -> nat
    decreases entries.len(),
{
    if entries.len() == 0 {
        0
    } else {
        total_spend(entries.drop_last()) + entries.last().1 as nat
    }
}

/// The entries of an account, none if it was never seen.
pub open spec fn entries_of(
    window: Map<Seq<char>, Seq<(u64, u64)>>,
    account: Seq<char>,
) -> Seq<(u64, u64)> {
    if window.contains_key(account) {
        window[account]
    } else {
        Seq::empty()
    }
}

/// The window once a transaction has been entered.
pub open spec fn enter(
    window: Map<Seq<char>, Seq<(u64, u64)>>,
    account: Seq<char>,
    now: u64,
    amount: u64,
    secs: u64,
) -> Map<Seq<char>, Seq<(u64, u64)>> {
    window.insert(account, record(entries_of(window, account), now, amount, secs))
}

/// A transaction as the window sees it.
pub struct Event {
    pub account: Seq<char>,
    pub now: u64,
    pub amount: u64,
}

/// The window after a run of transactions, starting from nothing.
pub open spec fn window_after(events: Seq<Event>, secs: u64) -> Map<Seq<char>, Seq<(u64, u64)>>
    decreases events.len(),
{
    if events.len() == 0 {
        Map::empty()
    } else {
        let last = events.last();
        enter(window_after(events.drop_last(), secs), last.account, last.now, last.amount, secs)
    }
}

/// Times and amounts of one account's transactions among many.
pub open spec fn history_of(events: Seq<Event>, account: Seq<char>) -> Seq<(u64, u64)>
    decreases events.len(),
{
    if events.len() == 0 {
        Seq::empty()
    } else {
        let earlier = history_of(events.drop_last(), account);
        if events.last().account == account {
            earlier.push((events.last().now, events.last().amount))
        } else {
            earlier
        }
    }
}

/// Whether the times never go back.
pub open spec fn in_order(history: Seq<(u64, u64)>) -> bool {
    forall|i: int, j: int| 0 <= i <= j < history.len() ==> history[i].0 <= history[j].0
}

/// Filtering what has one more entry.
pub(crate) proof fn lemma_kept_push(entries: Seq<(u64, u64)>, entry: (u64, u64), earliest: int)
    ensures
        kept(entries.push(entry), earliest) == if entry.0 >= earliest {
            kept(entries, earliest).push(entry)
        } else {
            kept(entries, earliest)
        },
{
    reveal(Seq::filter);
    assert(entries.push(entry).drop_last() =~= entries);
}

/// The first entries spend no more than all of them.
pub(crate) proof fn lemma_prefix_spends_less(entries: Seq<(u64, u64)>, n: int)
    requires
        0 <= n <= entries.len(),
    ensures
        total_spend(entries.take(n)) <= total_spend(entries),
    decreases entries.len(),
{
    if n == entries.len() {
        assert(entries.take(n) =~= entries);
    } else {
        lemma_prefix_spends_less(entries.drop_last(), n);
        assert(entries.drop_last().take(n) =~= entries.take(n));
    }
}

/// Filtering again by a later time leaves what filtering by the later time alone leaves.
pub(crate) proof fn lemma_kept_twice(entries: Seq<(u64, u64)>, earlier: int, later: int)
    requires
        earlier <= later,
    ensures
        kept(kept(entries, earlier), later) == kept(entries, later),
    decreases entries.len(),
{
    if entries.len() == 0 {
        reveal(Seq::filter);
    } else {
        let rest = entries.drop_last();
        lemma_kept_twice(rest, earlier, later);
        assert(entries =~= rest.push(entries.last()));
        lemma_kept_push(rest, entries.last(), earlier);
        lemma_kept_push(rest, entries.last(), later);
        lemma_kept_push(kept(rest, earlier), entries.last(), later);
    }
}

/// What is kept is recent, and what is recent is kept.
proof fn lemma_kept_contents(entries: Seq<(u64, u64)>, earliest: int)
    ensures
        forall|i: int|
            0 <= i < kept(entries, earliest).len() ==> (#[trigger] kept(entries, earliest)[i]).0
                >= earliest,
        forall|i: int|
            0 <= i < entries.len() && (#[trigger] entries[i]).0 >= earliest ==> kept(
                entries,
                earliest,
            ).contains(entries[i]),
        kept(entries, earliest).len() <= entries.len(),
{
    let recent = |entry: (u64, u64)| entry.0 >= earliest;
    entries.lemma_filter_len(recent);
    assert forall|i: int| 0 <= i < kept(entries, earliest).len() implies (#[trigger] kept(
        entries,
        earliest,
    )[i]).0 >= earliest by {
        entries.lemma_filter_pred(recent, i);
    }
    assert forall|i: int|
        0 <= i < entries.len() && (#[trigger] entries[i]).0 >= earliest implies kept(
        entries,
        earliest,
    ).contains(entries[i]) by {
        entries.lemma_filter_contains(recent, i);
    }
}

/// An entry counts by its age: entering a transaction keeps, in order, the entries that are at
/// most `secs` seconds old at its time, drops all others, and puts the transaction last.
pub proof fn law_entries_count_by_age(
    entries: Seq<(u64, u64)>,
    now: u64,
    amount: u64,
    secs: u64,
)
    ensures
        record(entries, now, amount, secs) == entries.filter(
            |entry: (u64, u64)| entry.0 + secs >= now,
        ).push((now, amount)),
{
    lemma_kept_by_age(entries, now, secs);
}

/// The entries kept at a time are those of a certain age.
pub(crate) proof fn lemma_kept_by_age(entries: Seq<(u64, u64)>, now: u64, secs: u64)
    ensures
        kept(entries, cutoff(now, secs)) == entries.filter(
            |entry: (u64, u64)| entry.0 + secs >= now,
        ),
    decreases entries.len(),
{
    reveal(Seq::filter);
    if entries.len() > 0 {
        lemma_kept_by_age(entries.drop_last(), now, secs);
    }
}

/// One more entry adds itself to the window, and what it spent to the spend, exactly if it is at
/// most `secs` seconds old.
pub proof fn law_an_entry_adds_itself(
    entries: Seq<(u64, u64)>,
    entry: (u64, u64),
    now: u64,
    amount: u64,
    secs: u64,
)
    ensures
        entry.0 + secs >= now ==> {
            &&& record(entries.push(entry), now, amount, secs).len() == record(
                entries,
                now,
                amount,
                secs,
            ).len() + 1
            &&& total_spend(record(entries.push(entry), now, amount, secs)) == total_spend(
                record(entries, now, amount, secs),
            ) + entry.1
        },
        entry.0 + secs < now ==> record(entries.push(entry), now, amount, secs) == record(
            entries,
            now,
            amount,
            secs,
        ),
{
    let recent = kept(entries, cutoff(now, secs));
    lemma_kept_push(entries, entry, cutoff(now, secs));
    law_spend_adds_up(recent, (now, amount));
    law_spend_adds_up(recent, entry);
    law_spend_adds_up(recent.push(entry), (now, amount));
}

/// Spend adds up: nothing spends nothing, and an entry adds its amount.
pub proof fn law_spend_adds_up(entries: Seq<(u64, u64)>, entry: (u64, u64))
    ensures
        total_spend(Seq::empty()) == 0,
        total_spend(entries.push(entry)) == total_spend(entries) + entry.1,
{
    assert(entries.push(entry).drop_last() =~= entries);
}

/// Entering a transaction changes the entries of its own account alone, and those by what is
/// recent among them and the transaction.
pub proof fn law_entering_records(
    window: Map<Seq<char>, Seq<(u64, u64)>>,
    account: Seq<char>,
    other: Seq<char>,
    now: u64,
    amount: u64,
    secs: u64,
)
    ensures
        !window.contains_key(account) ==> entries_of(window, account).len() == 0,
        window.contains_key(account) ==> entries_of(window, account) == window[account],
        enter(window, account, now, amount, secs) == window.insert(
            account,
            entries_of(window, account).filter(
                |entry: (u64, u64)| entry.0 + secs >= now,
            ).push((now, amount)),
        ),
        other != account ==> entries_of(enter(window, account, now, amount, secs), other)
            == entries_of(window, other),
{
    lemma_kept_by_age(entries_of(window, account), now, secs);
}

/// Once a transaction has been entered, no entry of its account is older than the window that
/// ends at the transaction's time, the transaction itself is the last entry, and no entry that is
/// still recent enough was lost.
pub proof fn law_window_holds_what_is_recent(
    entries: Seq<(u64, u64)>,
    now: u64,
    amount: u64,
    secs: u64,
)
    ensures
        forall|i: int|
            0 <= i < record(entries, now, amount, secs).len() ==> (#[trigger] record(
                entries,
                now,
                amount,
                secs,
            )[i]).0 >= cutoff(now, secs),
        record(entries, now, amount, secs).last() == (now, amount),
        forall|i: int|
            0 <= i < entries.len() && (#[trigger] entries[i]).0 >= cutoff(now, secs) ==> record(
                entries,
                now,
                amount,
                secs,
            ).contains(entries[i]),
        record(entries, now, amount, secs).len() <= entries.len() + 1,
        total_spend(record(entries, now, amount, secs)) >= amount,
{
    let recent = kept(entries, cutoff(now, secs));
    let all = record(entries, now, amount, secs);
    lemma_kept_contents(entries, cutoff(now, secs));
    assert forall|i: int| 0 <= i < all.len() implies (#[trigger] all[i]).0 >= cutoff(
        now,
        secs,
    ) by {
        if i < recent.len() {
            assert(all[i] == recent[i]);
        }
    }
    assert forall|i: int|
        0 <= i < entries.len() && (#[trigger] entries[i]).0 >= cutoff(
            now,
            secs,
        ) implies all.contains(entries[i]) by {
        assert(recent.contains(entries[i]));
        let j = choose|j: int| 0 <= j < recent.len() && recent[j] == entries[i];
        assert(all[j] == entries[i]);
    }
}

/// The entries of one account do not depend on what other accounts do.
pub proof fn law_accounts_are_independent(
    window: Map<Seq<char>, Seq<(u64, u64)>>,
    a: Event,
    b: Event,
    secs: u64,
)
    requires
        a.account != b.account,
    ensures
        entries_of(enter(window, a.account, a.now, a.amount, secs), b.account) == entries_of(
            window,
            b.account,
        ),
        enter(enter(window, a.account, a.now, a.amount, secs), b.account, b.now, b.amount, secs)
            == enter(
            enter(window, b.account, b.now, b.amount, secs),
            a.account,
            a.now,
            a.amount,
            secs,
        ),
{
    assert(enter(
        enter(window, a.account, a.now, a.amount, secs),
        b.account,
        b.now,
        b.amount,
        secs,
    ) =~= enter(
        enter(window, b.account, b.now, b.amount, secs),
        a.account,
        a.now,
        a.amount,
        secs,
    ));
}

/// After any run of transactions, the entries of an account are exactly those transactions of
/// that account that are no older than the window at its latest one, in order, provided that its
/// clock never went back. Their number and their sum are thus the account's transactions and
/// spend within the window.
pub proof fn law_window_is_the_recent_history(events: Seq<Event>, account: Seq<char>, secs: u64)
    requires
        in_order(history_of(events, account)),
    ensures
        ({
            let history = history_of(events, account);
            entries_of(window_after(events, secs), account) == if history.len() == 0 {
                Seq::empty()
            } else {
                kept(history, cutoff(history.last().0, secs))
            }
        }),
    decreases events.len(),
{
    if events.len() > 0 {
        let history = history_of(events, account);
        let before = events.drop_last();
        let earlier = history_of(before, account);
        let last = events.last();
        if last.account == account {
            assert forall|i: int, j: int| 0 <= i <= j < earlier.len() implies earlier[i].0
                <= earlier[j].0 by {
                assert(earlier[i] == history[i]);
                assert(earlier[j] == history[j]);
            }
            law_window_is_the_recent_history(before, account, secs);
            let earliest = cutoff(last.now, secs);
            lemma_kept_push(earlier, (last.now, last.amount), earliest);
            if earlier.len() > 0 {
                assert(earlier.last() == history[earlier.len() - 1]);
                assert(history[earlier.len() - 1].0 <= history[history.len() - 1].0);
                lemma_kept_twice(earlier, cutoff(earlier.last().0, secs), earliest);
            }
        } else {
            law_window_is_the_recent_history(before, account, secs);
        }
    }
}

} // verus!
