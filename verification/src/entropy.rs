//! How random a merchant name looks.
//!
//! The Shannon entropy of a name is the sum of `-p * log2(p)` over its distinct characters,
//! where `p` is a character's share of the characters of the name. `char_frequencies` supplies
//! the counts and the length; the sum itself comes back as a number of bits, of which
//! `ENTROPY_BIT` make one, and `shannon_entropy_score` turns it into a score.

use crate::extractor::FeatureExtractor;
use crate::score::POINT;
use vstd::prelude::*;
use vstd::string::*;

verus! {

broadcast use vstd::string::group_string_axioms;

/// One bit of entropy: two to the power 52.
pub const ENTROPY_BIT: u64 = 4_503_599_627_370_496;

/// How often each character of a text occurs in it.
#[derive(Debug)]
pub struct Frequencies {
    /// Each distinct character with its count, in the order of first occurrence.
    pub counts: Vec<(char, usize)>,
    /// The number of characters in the text, which the counts are taken relative to.
    pub length: usize,
}

/// The number of times that `c` occurs in `text`.
pub open spec fn occurrences(text: Seq<char>, c: char) -> nat
    decreases text.len(),
{
    if text.len() == 0 {
        0
    } else {
        occurrences(text.drop_last(), c) + if text.last() == c {
            1nat
        } else {
            0
        }
    }
}

/// The distinct characters of `text`, in the order of first occurrence.
pub open spec fn distinct_chars(text: Seq<char>) -> Seq<char>
    decreases text.len(),
{
    if text.len() == 0 {
        Seq::empty()
    } else if text.drop_last().contains(text.last()) {
        distinct_chars(text.drop_last())
    } else {
        distinct_chars(text.drop_last()).push(text.last())
    }
}

/// The characters of a frequency table.
pub open spec fn table_chars(counts: Seq<(char, usize)>) -> Seq<char> {
    counts.map_values(|entry: (char, usize)| entry.0)
}

/// Entropy as a score, before names of ordinary randomness are discounted: 6 bits and more make
/// 100 points, and less counts in proportion.
pub open spec fn normalized_entropy(entropy: int) -> int {
    if entropy >= 6 * ENTROPY_BIT {
        100 * POINT
    } else {
        entropy * 100 * POINT / (6 * ENTROPY_BIT)
    }
}

/// The entropy score of a name of so much entropy. Ordinary text has about 3.5 bits. Up to there
/// the first 40 points of normalized entropy are suppressed and the rest is stretched to the
/// full range; beyond, where names are random, normalized entropy counts in full.
pub open spec fn entropy_score(name: Seq<char>, entropy: int) -> int {
    let normalized = normalized_entropy(entropy);
    if name.len() == 0 {
        100 * POINT
    } else if 2 * entropy > 7 * ENTROPY_BIT {
        normalized
    } else if normalized < 40 * POINT {
        0
    } else {
        (normalized - 40 * POINT) * 100 / 60
    }
}

/// Every character of a text is among its distinct characters, once, and no other is.
proof fn lemma_distinct_chars(text: Seq<char>)
    ensures
        forall|c: char| #[trigger] distinct_chars(text).contains(c) <==> text.contains(c),
        distinct_chars(text).no_duplicates(),
    decreases text.len(),
{
    if text.len() > 0 {
        let rest = text.drop_last();
        let known = distinct_chars(rest);
        lemma_distinct_chars(rest);
        assert(text =~= rest.push(text.last()));
        let all = distinct_chars(text);
        assert forall|c: char| #[trigger] all.contains(c) <==> text.contains(c) by {
            if all.contains(c) {
                let j = choose|j: int| 0 <= j < all.len() && all[j] == c;
                if j < known.len() {
                    assert(known[j] == c);
                    assert(known.contains(c));
                    assert(rest.contains(c));
                    let i = choose|i: int| 0 <= i < rest.len() && rest[i] == c;
                    assert(text[i] == c);
                } else {
                    assert(text[text.len() - 1] == c);
                }
            }
            if text.contains(c) {
                let i = choose|i: int| 0 <= i < text.len() && text[i] == c;
                if i < rest.len() || rest.contains(c) {
                    assert(i < rest.len() ==> rest[i] == c);
                    assert(known.contains(c));
                    let j = choose|j: int| 0 <= j < known.len() && known[j] == c;
                    assert(all[j] == c);
                } else {
                    assert(all[known.len() as int] == c);
                }
            }
        }
        assert(known.contains(text.last()) <==> rest.contains(text.last()));
    }
}

impl FeatureExtractor {
    /// Counts the characters of `name`.
    pub fn char_frequencies(name: &str) -> (frequencies: Frequencies)
        ensures
            table_chars(frequencies.counts@) == distinct_chars(name@),
            forall|i: int|
                #![trigger frequencies.counts@[i]]
                0 <= i < frequencies.counts@.len() ==> frequencies.counts@[i].1 == occurrences(
                    name@,
                    frequencies.counts@[i].0,
                ),
            frequencies.length == name@.len(),
            frequencies.counts@.map_values(|entry: (char, usize)| entry.0) == distinct_chars(name@),
            forall|i: int|
                #![trigger frequencies.counts@[i]]
                0 <= i < frequencies.counts@.len() ==> frequencies.counts@[i].1 > 0
                    && frequencies.counts@[i].1 == name@.to_multiset().count(
                    frequencies.counts@[i].0,
                ),
            forall|i: int, j: int|
                #![trigger frequencies.counts@[i], frequencies.counts@[j]]
                0 <= i < j < frequencies.counts@.len() ==> frequencies.counts@[i].0
                    != frequencies.counts@[j].0,
            forall|p: int|
                0 <= p < name@.len() ==> exists|i: int|
                    0 <= i < frequencies.counts@.len() && frequencies.counts@[i].0
                        == #[trigger] name@[p],
    {
        let chars: usize = name.unicode_len();
        let mut counts: Vec<(char, usize)> = Vec::new();
        let ghost mut seen: nat = 0;
        assert(name@.take(0) =~= Seq::empty());
        assert(table_chars(counts@) =~= Seq::empty());
        for c in it: name.chars()
            invariant
                seen == it.index(),
                it.seq() == name@,
                chars == name@.len(),
                table_chars(counts@) == distinct_chars(name@.take(seen as int)),
                forall|i: int|
                    #![trigger counts@[i]]
                    0 <= i < counts@.len() ==> counts@[i].1 == occurrences(
                        name@.take(seen as int),
                        counts@[i].0,
                    ),
        {
            let ghost before = name@.take(seen as int);
            let ghost after = name@.take(seen as int + 1);
            let ghost table = counts@;
            proof {
                assert(after.drop_last() =~= before);
                assert(after.last() == c);
                lemma_distinct_chars(before);
            }
            let mut at: usize = 0;
            while at < counts.len() && counts[at].0 != c
                invariant
                    at <= counts@.len(),
                    counts@ == table,
                    forall|i: int| 0 <= i < at ==> table_chars(table)[i] != c,
                decreases counts@.len() - at,
            {
                at = at + 1;
            }
            if at < counts.len() {
                let n: usize = counts[at].1;
                proof {
                    lemma_occurrences_bound(before, c);
                    assert(table_chars(table)[at as int] == c);
                    assert(distinct_chars(before).contains(c));
                }
                counts.set(at, (c, n + 1));
                proof {
                    assert(table_chars(counts@) =~= table_chars(table));
                    assert forall|i: int|
                        #![trigger counts@[i]]
                        0 <= i < counts@.len() implies counts@[i].1 == occurrences(
                        after,
                        counts@[i].0,
                    ) by {
                        assert(table[i].0 == table_chars(table)[i]);
                    }
                }
            } else {
                proof {
                    assert(!distinct_chars(before).contains(c));
                    lemma_no_occurrences(before, c);
                }
                counts.push((c, 1));
                proof {
                    assert(table_chars(counts@) =~= table_chars(table).push(c));
                    assert forall|i: int|
                        #![trigger counts@[i]]
                        0 <= i < counts@.len() implies counts@[i].1 == occurrences(
                        after,
                        counts@[i].0,
                    ) by {
                        if i < table.len() {
                            assert(counts@[i] == table[i]);
                            assert(table[i].0 == table_chars(table)[i]);
                        }
                    }
                }
            }
            proof {
                seen = seen + 1;
            }
        }
        assert(name@.take(name@.len() as int) =~= name@);
        proof {
            lemma_distinct_chars(name@);
            let chars_of = table_chars(counts@);
            assert(counts@.map_values(|entry: (char, usize)| entry.0) =~= chars_of);
            assert forall|i: int| #![trigger counts@[i]] 0 <= i < counts@.len() implies counts@[i].1
                > 0 && counts@[i].1 == name@.to_multiset().count(counts@[i].0) by {
                lemma_occurrences_in_multiset(name@, counts@[i].0);
                assert(chars_of[i] == counts@[i].0);
                assert(chars_of.contains(counts@[i].0));
                lemma_some_occurrence(name@, counts@[i].0);
            }
            assert forall|i: int, j: int|
                #![trigger counts@[i], counts@[j]]
                0 <= i < j < counts@.len() implies counts@[i].0 != counts@[j].0 by {
                assert(chars_of[i] == counts@[i].0);
                assert(chars_of[j] == counts@[j].0);
            }
            assert forall|p: int| 0 <= p < name@.len() implies exists|i: int|
                0 <= i < counts@.len() && counts@[i].0 == #[trigger] name@[p] by {
                assert(name@.contains(name@[p]));
                assert(chars_of.contains(name@[p]));
                let i = choose|i: int| 0 <= i < chars_of.len() && chars_of[i] == name@[p];
                assert(counts@[i].0 == name@[p]);
            }
        }
        Frequencies { counts, length: chars }
    }

    /// The entropy score of a merchant name that has so much Shannon entropy. A name without a
    /// character is as suspicious as a name can be.
    pub fn shannon_entropy_score(name: &str, entropy: u64) -> (score: u64)
        ensures
            score == entropy_score(name@, entropy as int),
            score <= 100 * POINT,
            name@.len() == 0 ==> score == 100 * POINT,
            name@.len() > 0 && entropy >= 6 * ENTROPY_BIT ==> score == 100 * POINT,
            name@.len() > 0 && 7 * ENTROPY_BIT < 2 * entropy && entropy < 6 * ENTROPY_BIT ==> score
                * 6 * ENTROPY_BIT == entropy * 100 * POINT,
            name@.len() > 0 && 12 * ENTROPY_BIT < 5 * entropy && 2 * entropy <= 7 * ENTROPY_BIT
                ==> score == 250 * entropy - 600 * ENTROPY_BIT,
            name@.len() > 0 && 5 * entropy <= 12 * ENTROPY_BIT ==> score == 0,
    {
        if name.is_empty() {
            return 100 * POINT;
        }
        let normalized: u64 = if entropy >= 6 * ENTROPY_BIT {
            100 * POINT
        } else {
            entropy * 150
        };
        if entropy > 3 * ENTROPY_BIT + ENTROPY_BIT / 2 {
            normalized
        } else if normalized < 40 * POINT {
            0
        } else {
            (normalized - 40 * POINT) / 3 * 5
        }
    }
}

/// A bit of entropy is two to the power 52, a ninth of a point of a score.
pub proof fn law_entropy_unit()
    ensures
        ENTROPY_BIT == 0x10_0000_0000_0000,
        9 * ENTROPY_BIT == POINT,
{
}

/// Of a name that has any character, entropy alone counts: names of equal entropy score the same.
/// A name that has none scores 100 points.
pub proof fn law_entropy_alone_counts(name: Seq<char>, other: Seq<char>, entropy: u64)
    ensures
        name.len() > 0 && other.len() > 0 ==> entropy_score(name, entropy as int) == entropy_score(
            other,
            entropy as int,
        ),
        name.len() == 0 ==> entropy_score(name, entropy as int) == 100 * POINT,
{
}

/// A name scores 100 points from 6 bits of entropy on, and only from there on. Below, its score
/// is never more than in proportion: entropy times 100 points over 6 bits.
pub proof fn law_full_score_from_six_bits(name: Seq<char>, entropy: u64)
    requires
        name.len() > 0,
    ensures
        entropy_score(name, entropy as int) == 100 * POINT <==> entropy >= 6 * ENTROPY_BIT,
        0 <= entropy_score(name, entropy as int) <= 100 * POINT,
        entropy_score(name, entropy as int) * 6 * ENTROPY_BIT <= entropy * 100 * POINT,
        normalized_entropy(entropy as int) == 100 * POINT <==> entropy >= 6 * ENTROPY_BIT,
        entropy < 6 * ENTROPY_BIT ==> normalized_entropy(entropy as int) * 6 * ENTROPY_BIT == entropy
            * 100 * POINT,
{
}

/// Between 3.5 and 6 bits a score is in proportion to entropy; between 2.4 and 3.5 bits it grows
/// from nothing, at the rate of 100 points for each 3.6 bits; below 2.4 bits there is none.
pub proof fn law_entropy_score_in_proportion(name: Seq<char>, low: u64, high: u64)
    requires
        name.len() > 0,
        low <= high,
    ensures
        7 * ENTROPY_BIT < 2 * low && high <= 6 * ENTROPY_BIT ==> entropy_score(name, high as int) * low
            == entropy_score(name, low as int) * high,
        12 * ENTROPY_BIT <= 5 * low && 2 * high <= 7 * ENTROPY_BIT ==> (entropy_score(
            name,
            high as int,
        ) - entropy_score(name, low as int)) * 36 * ENTROPY_BIT == (high - low) * 1000 * POINT,
        5 * low <= 12 * ENTROPY_BIT <==> entropy_score(name, low as int) == 0,
{
    if 7 * ENTROPY_BIT < 2 * low && high <= 6 * ENTROPY_BIT {
        assert(entropy_score(name, low as int) == 150 * low);
        assert(entropy_score(name, high as int) == 150 * high);
        assert((150 * high) * low == (150 * low) * high) by (nonlinear_arith);
    }
}

/// How often a character occurs is its count in the multiset of characters, whatever their order.
pub proof fn law_occurrences(text: Seq<char>, c: char, more: char)
    ensures
        occurrences(text, c) == text.to_multiset().count(c),
        occurrences(text.push(more), c) == occurrences(text, c) + if more == c {
            1nat
        } else {
            0
        },
        occurrences(text, c) > 0 <==> text.contains(c),
{
    lemma_occurrences_in_multiset(text, c);
    assert(text.push(more).drop_last() =~= text);
    if text.contains(c) {
        lemma_some_occurrence(text, c);
    } else {
        lemma_no_occurrences(text, c);
    }
}

/// Distinct characters come in the order of first occurrence: one more character of a text is
/// added last where it is new, and not at all where it is not.
pub proof fn law_distinct_chars_in_order(text: Seq<char>, more: char)
    ensures
        distinct_chars(Seq::empty()) == Seq::<char>::empty(),
        text.contains(more) ==> distinct_chars(text.push(more)) == distinct_chars(text),
        !text.contains(more) ==> distinct_chars(text.push(more)) == distinct_chars(text).push(more),
{
    assert(text.push(more).drop_last() =~= text);
}

/// More entropy never lowers the score of a name.
pub proof fn law_entropy_score_monotone(name: Seq<char>, low: u64, high: u64)
    requires
        low <= high,
    ensures
        entropy_score(name, low as int) <= entropy_score(name, high as int),
{
}

/// A name of ordinary randomness, up to 3.5 bits, scores below 31 points, and a random one, above
/// 3.5 bits, above 58.
pub proof fn law_random_names_stand_out(name: Seq<char>, entropy: u64)
    requires
        name.len() > 0,
    ensures
        2 * entropy <= 7 * ENTROPY_BIT ==> entropy_score(name, entropy as int) < 31 * POINT,
        2 * entropy > 7 * ENTROPY_BIT ==> entropy_score(name, entropy as int) > 58 * POINT,
{
}

/// How often the characters `chars` occur in `text`, taken together.
pub open spec fn total_occurrences(text: Seq<char>, chars: Seq<char>) -> nat
    decreases chars.len(),
{
    if chars.len() == 0 {
        0
    } else {
        total_occurrences(text, chars.drop_last()) + occurrences(text, chars.last())
    }
}

/// The distinct characters of a text account for all of it: none is counted twice and none is
/// left out.
pub proof fn law_frequencies_cover_the_text(text: Seq<char>)
    ensures
        distinct_chars(text).no_duplicates(),
        forall|c: char| #[trigger] distinct_chars(text).contains(c) <==> text.contains(c),
        total_occurrences(text, distinct_chars(text)) == text.len(),
    decreases text.len(),
{
    lemma_distinct_chars(text);
    if text.len() > 0 {
        let rest = text.drop_last();
        let c = text.last();
        law_frequencies_cover_the_text(rest);
        lemma_total_occurrences_step(text, distinct_chars(rest));
        if !rest.contains(c) {
            lemma_no_occurrences(rest, c);
            assert(distinct_chars(text).drop_last() =~= distinct_chars(rest));
        }
    }
}

/// `text`, `times` times over.
pub open spec fn repeated(text: Seq<char>, times: nat) -> Seq<char>
    decreases times,
{
    if times == 0 {
        Seq::empty()
    } else {
        repeated(text, (times - 1) as nat) + text
    }
}

/// The order of a name's characters does not matter: a name made of the same characters has the
/// same length, the same characters with the same counts, and so the same shares, and for its
/// entropy it gets the same score.
pub proof fn law_order_does_not_matter(name: Seq<char>, other: Seq<char>)
    requires
        name.to_multiset() == other.to_multiset(),
    ensures
        name.len() == other.len(),
        forall|c: char| #[trigger] occurrences(name, c) == occurrences(other, c),
        forall|c: char| #[trigger]
            distinct_chars(name).contains(c) <==> distinct_chars(other).contains(c),
        forall|entropy: int| #[trigger]
            entropy_score(name, entropy) == entropy_score(other, entropy),
{
    broadcast use vstd::seq_lib::group_to_multiset_ensures;

    assert(name.len() == name.to_multiset().len());
    assert(other.len() == other.to_multiset().len());
    assert forall|c: char| #[trigger] occurrences(name, c) == occurrences(other, c) by {
        lemma_occurrences_in_multiset(name, c);
        lemma_occurrences_in_multiset(other, c);
    }
    assert forall|c: char| #[trigger]
        distinct_chars(name).contains(c) <==> distinct_chars(other).contains(c) by {
        lemma_distinct_chars(name);
        lemma_distinct_chars(other);
        assert(name.contains(c) <==> name.to_multiset().count(c) > 0);
        assert(other.contains(c) <==> other.to_multiset().count(c) > 0);
    }
}

/// Repeating a name does not matter: it has the same characters, with counts and length both so
/// many times as large, and so the same shares, and for its entropy it gets the same score.
pub proof fn law_repetition_does_not_matter(name: Seq<char>, times: nat)
    requires
        times > 0,
    ensures
        repeated(name, times).len() == times * name.len(),
        forall|c: char| #[trigger]
            occurrences(repeated(name, times), c) == times * occurrences(name, c),
        distinct_chars(repeated(name, times)) == distinct_chars(name),
        forall|entropy: int| #[trigger]
            entropy_score(repeated(name, times), entropy) == entropy_score(name, entropy),
    decreases times,
{
    let fewer = (times - 1) as nat;
    let rest = repeated(name, fewer);
    if fewer == 0 {
        assert(repeated(name, fewer) =~= Seq::empty());
        assert(repeated(name, times) =~= name);
        assert(times * name.len() == name.len()) by (nonlinear_arith)
            requires
                times == 1,
        ;
    } else {
        law_repetition_does_not_matter(name, fewer);
        assert forall|c: char| #[trigger]
            occurrences(repeated(name, times), c) == times * occurrences(name, c) by {
            lemma_occurrences_concat(rest, name, c);
            assert(occurrences(rest, c) == fewer * occurrences(name, c));
            assert(fewer * occurrences(name, c) + occurrences(name, c) == times * occurrences(
                name,
                c,
            )) by (nonlinear_arith)
                requires
                    times == fewer + 1,
            ;
        }
        assert(fewer * name.len() + name.len() == times * name.len()) by (nonlinear_arith)
            requires
                times == fewer + 1,
        ;
        lemma_distinct_chars(rest);
        lemma_distinct_chars(name);
        assert forall|i: int| 0 <= i < name.len() implies rest.contains(#[trigger] name[i]) by {
            assert(name.contains(name[i]));
            assert(distinct_chars(name).contains(name[i]));
            assert(distinct_chars(rest).contains(name[i]));
        }
        lemma_distinct_concat(rest, name);
        if name.len() > 0 {
            assert(times * name.len() >= 1) by (nonlinear_arith)
                requires
                    times > 0,
                    name.len() > 0,
            ;
        } else {
            assert(repeated(name, times) =~= rest);
            assert(fewer * name.len() == 0) by (nonlinear_arith)
                requires
                    name.len() == 0,
            ;
        }
    }
}

/// Which characters a name is written in does not matter: where each is exchanged for another,
/// different ones for different ones, counts and length stay, and so do the shares, and for its
/// entropy the name gets the same score.
pub proof fn law_alphabet_does_not_matter(name: Seq<char>, rename: spec_fn(char) -> char)
    requires
        forall|i: int, j: int|
            0 <= i < name.len() && 0 <= j < name.len() && rename(#[trigger] name[i]) == rename(
                #[trigger] name[j],
            ) ==> name[i] == name[j],
    ensures
        name.map_values(rename).len() == name.len(),
        forall|i: int|
            0 <= i < name.len() ==> occurrences(
                name.map_values(rename),
                rename(#[trigger] name[i]),
            ) == occurrences(name, name[i]),
        distinct_chars(name.map_values(rename)) == distinct_chars(name).map_values(rename),
        forall|entropy: int| #[trigger]
            entropy_score(name.map_values(rename), entropy) == entropy_score(name, entropy),
{
    assert forall|i: int| 0 <= i < name.len() implies occurrences(
        name.map_values(rename),
        rename(#[trigger] name[i]),
    ) == occurrences(name, name[i]) by {
        lemma_occurrences_renamed(name, rename, name[i]);
    }
    lemma_distinct_renamed(name, rename);
}

/// The number of times that a character occurs is its count in the multiset of characters.
proof fn lemma_occurrences_in_multiset(text: Seq<char>, c: char)
    ensures
        occurrences(text, c) == text.to_multiset().count(c),
    decreases text.len(),
{
    broadcast use vstd::seq_lib::group_to_multiset_ensures;
    broadcast use vstd::multiset::group_multiset_axioms;

    if text.len() > 0 {
        let rest = text.drop_last();
        lemma_occurrences_in_multiset(rest, c);
        assert(text =~= rest.push(text.last()));
        assert(text.to_multiset() =~= rest.to_multiset().insert(text.last()));
    } else {
        assert(!text.contains(c));
        assert(text.to_multiset().count(c) == 0);
    }
}

/// A character occurs in a text followed by another as often as in the two.
proof fn lemma_occurrences_concat(a: Seq<char>, b: Seq<char>, c: char)
    ensures
        occurrences(a + b, c) == occurrences(a, c) + occurrences(b, c),
    decreases b.len(),
{
    if b.len() == 0 {
        assert(a + b =~= a);
    } else {
        lemma_occurrences_concat(a, b.drop_last(), c);
        assert((a + b).drop_last() =~= a + b.drop_last());
    }
}

/// What follows a text and is made of its characters adds no distinct ones.
proof fn lemma_distinct_concat(a: Seq<char>, b: Seq<char>)
    requires
        forall|i: int| 0 <= i < b.len() ==> a.contains(#[trigger] b[i]),
    ensures
        distinct_chars(a + b) == distinct_chars(a),
    decreases b.len(),
{
    if b.len() == 0 {
        assert(a + b =~= a);
    } else {
        let rest = b.drop_last();
        assert forall|i: int| 0 <= i < rest.len() implies a.contains(#[trigger] rest[i]) by {
            assert(rest[i] == b[i]);
        }
        lemma_distinct_concat(a, rest);
        assert((a + b).drop_last() =~= a + rest);
        assert(a.contains(b[b.len() - 1]));
        let i = choose|i: int| 0 <= i < a.len() && a[i] == b.last();
        assert((a + rest)[i] == b.last());
    }
}

/// A character occurs as often as the one that it is exchanged for.
proof fn lemma_occurrences_renamed(text: Seq<char>, rename: spec_fn(char) -> char, c: char)
    requires
        forall|i: int| 0 <= i < text.len() && rename(#[trigger] text[i]) == rename(c) ==> text[i] == c,
    ensures
        occurrences(text.map_values(rename), rename(c)) == occurrences(text, c),
    decreases text.len(),
{
    if text.len() > 0 {
        let rest = text.drop_last();
        assert forall|i: int| 0 <= i < rest.len() && rename(#[trigger] rest[i]) == rename(
            c,
        ) implies rest[i] == c by {
            assert(rest[i] == text[i]);
        }
        lemma_occurrences_renamed(rest, rename, c);
        assert(text.map_values(rename).drop_last() =~= rest.map_values(rename));
        assert(text[text.len() - 1] == text.last());
    }
}

/// Distinct characters stay distinct, and in order, where each is exchanged for another.
proof fn lemma_distinct_renamed(text: Seq<char>, rename: spec_fn(char) -> char)
    requires
        forall|i: int, j: int|
            0 <= i < text.len() && 0 <= j < text.len() && rename(#[trigger] text[i]) == rename(
                #[trigger] text[j],
            ) ==> text[i] == text[j],
    ensures
        distinct_chars(text.map_values(rename)) == distinct_chars(text).map_values(rename),
    decreases text.len(),
{
    let renamed = text.map_values(rename);
    if text.len() == 0 {
        assert(distinct_chars(renamed) =~= distinct_chars(text).map_values(rename));
    } else {
        let rest = text.drop_last();
        let last = text.last();
        assert forall|i: int, j: int|
            0 <= i < rest.len() && 0 <= j < rest.len() && rename(#[trigger] rest[i]) == rename(
                #[trigger] rest[j],
            ) implies rest[i] == rest[j] by {
            assert(rest[i] == text[i]);
            assert(rest[j] == text[j]);
        }
        lemma_distinct_renamed(rest, rename);
        assert(renamed.drop_last() =~= rest.map_values(rename));
        assert(renamed.last() == rename(last));
        if rest.contains(last) {
            let i = choose|i: int| 0 <= i < rest.len() && rest[i] == last;
            assert(renamed.drop_last()[i] == rename(last));
        }
        if renamed.drop_last().contains(rename(last)) {
            let i = choose|i: int|
                0 <= i < rest.len() && renamed.drop_last()[i] == rename(last);
            assert(text[i] == rest[i]);
            assert(text[text.len() - 1] == last);
            assert(rest[i] == last);
        }
        assert(distinct_chars(renamed) =~= distinct_chars(text).map_values(rename));
    }
}

/// The last character of a text counts once if it is among `chars`, and not at all if it is not.
proof fn lemma_total_occurrences_step(text: Seq<char>, chars: Seq<char>)
    requires
        text.len() > 0,
        chars.no_duplicates(),
    ensures
        total_occurrences(text, chars) == total_occurrences(text.drop_last(), chars)
            + if chars.contains(text.last()) {
            1nat
        } else {
            0
        },
    decreases chars.len(),
{
    if chars.len() > 0 {
        let others = chars.drop_last();
        let c = text.last();
        lemma_total_occurrences_step(text, others);
        if chars.contains(c) && chars.last() != c {
            let i = choose|i: int| 0 <= i < chars.len() && chars[i] == c;
            assert(others[i] == c);
        }
        if others.contains(c) {
            let i = choose|i: int| 0 <= i < others.len() && others[i] == c;
            assert(chars[i] == c);
        }
        if chars.last() == c {
            assert(chars[chars.len() - 1] == c);
        }
    }
}

/// A character occurs at most as often as there are characters.
proof fn lemma_occurrences_bound(text: Seq<char>, c: char)
    ensures
        occurrences(text, c) <= text.len(),
    decreases text.len(),
{
    if text.len() > 0 {
        lemma_occurrences_bound(text.drop_last(), c);
    }
}

/// A character that is in a text occurs in it.
proof fn lemma_some_occurrence(text: Seq<char>, c: char)
    requires
        text.contains(c),
    ensures
        occurrences(text, c) > 0,
    decreases text.len(),
{
    let i = choose|i: int| 0 <= i < text.len() && text[i] == c;
    if i < text.len() - 1 {
        assert(text.drop_last()[i] == c);
        lemma_some_occurrence(text.drop_last(), c);
    }
}

/// A character that is not in a text does not occur in it.
proof fn lemma_no_occurrences(text: Seq<char>, c: char)
    requires
        !text.contains(c),
    ensures
        occurrences(text, c) == 0,
    decreases text.len(),
{
    if text.len() > 0 {
        assert(text[text.len() - 1] != c);
        assert forall|i: int| 0 <= i < text.drop_last().len() implies text.drop_last()[i] != c by {
            assert(text[i] != c);
        }
        lemma_no_occurrences(text.drop_last(), c);
    }
}

} // verus!
