use fraud_signal::entropy::ENTROPY_BIT;
use fraud_signal::extractor::FeatureExtractor;
use fraud_signal::score::POINT;

fn shannon_bits(name: &str) -> f64 {
    let frequencies = FeatureExtractor::char_frequencies(name);
    let length = frequencies.length as f64;
    frequencies
        .counts
        .iter()
        .map(|&(_, count)| {
            let p = count as f64 / length;
            -p * p.log2()
        })
        .sum()
}

fn entropy_score(name: &str) -> f64 {
    let entropy = (shannon_bits(name) * ENTROPY_BIT as f64) as u64;
    FeatureExtractor::shannon_entropy_score(name, entropy) as f64 / POINT as f64
}

#[test]
fn test_entropy_normal_merchant() {
    let score = entropy_score("Shopify Inc");
    assert!(score < 50.0, "Normal merchant name should have low entropy");
}

#[test]
fn test_entropy_random_string() {
    let score = entropy_score("xK7@#mQ2$Lv!9");
    assert!(score > 60.0, "Random string should have high entropy");
}

#[test]
fn empty_name_is_maximally_suspicious() {
    assert_eq!(FeatureExtractor::shannon_entropy_score("", 0), 100 * POINT);
    assert_eq!(entropy_score(""), 100.0);
}

#[test]
fn up_to_forty_normalized_points_are_suppressed() {
    // 2.4 bits are 40 points before the discount.
    assert_eq!(FeatureExtractor::shannon_entropy_score("x", 0), 0);
    assert_eq!(FeatureExtractor::shannon_entropy_score("x", 2 * ENTROPY_BIT), 0);
    assert_eq!(FeatureExtractor::shannon_entropy_score("x", ENTROPY_BIT / 5 * 12), 0);
}

#[test]
fn ordinary_entropy_is_discounted_and_stretched() {
    // 3 bits are 50 points, less 40, times 100 / 60.
    assert_eq!(FeatureExtractor::shannon_entropy_score("x", 3 * ENTROPY_BIT), POINT / 3 * 50);
    // "Shopify Inc" has eleven different characters.
    let expected = (11f64.log2() / 6.0 * 100.0 - 40.0) * (100.0 / 60.0);
    assert!((entropy_score("Shopify Inc") - expected).abs() < 1e-9);
}

#[test]
fn random_entropy_counts_in_full() {
    assert_eq!(FeatureExtractor::shannon_entropy_score("x", ENTROPY_BIT * 9 / 2), 75 * POINT);
    let at_boundary = 3 * ENTROPY_BIT + ENTROPY_BIT / 2;
    let below = FeatureExtractor::shannon_entropy_score("x", at_boundary);
    let above = FeatureExtractor::shannon_entropy_score("x", at_boundary + 1);
    assert!(below < 31 * POINT);
    assert!(above > 58 * POINT);
}

#[test]
fn six_bits_and_more_make_a_hundred_points() {
    assert_eq!(FeatureExtractor::shannon_entropy_score("x", 6 * ENTROPY_BIT), 100 * POINT);
    assert_eq!(FeatureExtractor::shannon_entropy_score("x", u64::MAX), 100 * POINT);
    assert!(FeatureExtractor::shannon_entropy_score("x", 6 * ENTROPY_BIT - 1) < 100 * POINT);
}

#[test]
fn more_entropy_never_lowers_the_score() {
    let mut last = 0;
    for step in 0..200 {
        let score = FeatureExtractor::shannon_entropy_score("x", ENTROPY_BIT / 20 * step);
        assert!(score >= last);
        last = score;
    }
}

#[test]
fn characters_are_counted_in_order_of_first_occurrence() {
    let frequencies = FeatureExtractor::char_frequencies("banana");
    assert_eq!(frequencies.counts, vec![('b', 1), ('a', 3), ('n', 2)]);
    assert_eq!(frequencies.length, 6);
}

#[test]
fn length_is_in_characters() {
    let frequencies = FeatureExtractor::char_frequencies("caf\u{e9}\u{e9}");
    assert_eq!(frequencies.counts, vec![('c', 1), ('a', 1), ('f', 1), ('\u{e9}', 2)]);
    assert_eq!(frequencies.length, 5);
}

#[test]
fn alphabet_does_not_matter() {
    let latin = "abcdefghijklmnop";
    let greek = "\u{3b1}\u{3b2}\u{3b3}\u{3b4}\u{3b5}\u{3b6}\u{3b7}\u{3b8}\
                 \u{3b9}\u{3ba}\u{3bb}\u{3bc}\u{3bd}\u{3be}\u{3bf}\u{3c0}";
    assert_eq!(FeatureExtractor::char_frequencies(latin).length, 16);
    assert_eq!(FeatureExtractor::char_frequencies(greek).length, 16);
    assert_eq!(shannon_bits(greek), 4.0);
    assert_eq!(entropy_score(greek), entropy_score(latin));
}

#[test]
fn order_does_not_matter() {
    assert!((entropy_score("banana") - entropy_score("nabana")).abs() < 1e-9);
    assert!((entropy_score("Shopify Inc") - entropy_score("cnI yfipohS")).abs() < 1e-9);
    assert!(entropy_score("Shopify Inc") > 0.0);
}

#[test]
fn repetition_does_not_matter() {
    let name = "Shopify Inc";
    let frequencies = FeatureExtractor::char_frequencies(&name.repeat(3));
    assert_eq!(frequencies.length, 33);
    assert_eq!(frequencies.counts.len(), 11);
    assert!(frequencies.counts.iter().all(|&(_, count)| count == 3));
    assert!((entropy_score(&name.repeat(3)) - entropy_score(name)).abs() < 1e-9);
}

#[test]
fn an_empty_text_has_no_characters() {
    let frequencies = FeatureExtractor::char_frequencies("");
    assert!(frequencies.counts.is_empty());
    assert_eq!(frequencies.length, 0);
}
