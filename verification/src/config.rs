//! How the processor is configured.

use vstd::prelude::*;

verus! {

broadcast use vstd::string::group_string_axioms;

/// What the environment says, where it says anything.
#[derive(Debug)]
pub struct Settings {
    pub kafka_brokers: Option<String>,
    pub input_topic: Option<String>,
    pub output_topic: Option<String>,
    pub consumer_group: Option<String>,
    pub max_concurrency: Option<String>,
}

/// The processor's configuration.
#[derive(Debug)]
pub struct Config {
    pub kafka_brokers: String,
    pub input_topic: String,
    pub output_topic: String,
    pub consumer_group: String,
    pub max_concurrency: usize,
    pub poll_timeout_ms: u64,
    pub batch_size: usize,
}

/// Why a configuration is refused.
#[derive(Debug, Clone, Copy, PartialEq, Eq, Structural)]
pub enum ConfigError {
    /// The limit on concurrency is not a positive number.
    MaxConcurrency,
}

impl ConfigError {
    /// The error in words.
    pub fn message(&self) -> (message: &'static str)
        ensures
            message@ == "MAX_CONCURRENCY must be a positive integer"@,
    {
        "MAX_CONCURRENCY must be a positive integer"
    }
}

/// Whether all of the text is decimal digits.
pub open spec fn all_digits(text: Seq<char>) -> bool {
    forall|i: int| 0 <= i < text.len() ==> '0' <= #[trigger] text[i] <= '9'
}

/// The number that decimal digits write.
pub open spec fn digits_value(text: Seq<char>) -> nat
    decreases text.len(),
{
    if text.len() == 0 {
        0
    } else {
        digits_value(text.drop_last()) * 10 + (text.last() as nat - '0' as nat) as nat
    }
}

/// The digits of a number: all of the text but a leading plus sign.
pub open spec fn digits_of(text: Seq<char>) -> Seq<char> {
    if text.len() > 0 && text[0] == '+' {
        text.skip(1)
    } else {
        text
    }
}

/// The number that a text writes: decimal digits, a plus sign before them if there is one, of a
/// value that `usize` holds.
pub open spec fn number(text: Seq<char>) -> Option<usize> {
    let digits = digits_of(text);
    if digits.len() > 0 && all_digits(digits) && digits_value(digits) <= usize::MAX {
        Some(digits_value(digits) as usize)
    } else {
        None
    }
}

/// The setting, or what stands in for it.
pub open spec fn setting_or(setting: Option<String>, fallback: Seq<char>) -> Seq<char> {
    match setting {
        Some(text) => text@,
        None => fallback,
    }
}

/// The first digits of a number are worth no more than all of them.
proof fn lemma_prefix_value(digits: Seq<char>, n: int)
    requires
        0 <= n <= digits.len(),
    ensures
        digits_value(digits.take(n)) <= digits_value(digits),
    decreases digits.len(),
{
    if n == digits.len() {
        assert(digits.take(n) =~= digits);
    } else {
        lemma_prefix_value(digits.drop_last(), n);
        assert(digits.drop_last().take(n) =~= digits.take(n));
    }
}

/// Reads a number.
pub fn parse_number(text: &str) -> (parsed: Option<usize>)
    ensures
        parsed == number(text@),
{
    let ghost digits = digits_of(text@);
    let mut value: usize = 0;
    let mut first: bool = true;
    let mut any: bool = false;
    let ghost mut read: nat = 0;
    assert(digits.take(0) =~= Seq::empty());
    for c in it: text.chars()
        invariant
            it.seq() == text@,
            digits == digits_of(text@),
            first == (it.index() == 0),
            it.index() == read + (text@.len() - digits.len()) || (it.index() == 0 && read == 0),
            read <= digits.len(),
            any == (read > 0),
            value == digits_value(digits.take(read as int)),
            forall|i: int| 0 <= i < read ==> '0' <= #[trigger] digits[i] <= '9',
    {
        if first && c == '+' {
            first = false;
        } else {
            first = false;
            proof {
                assert(digits[read as int] == c);
                assert(digits.take(read as int + 1).drop_last() =~= digits.take(read as int));
                lemma_prefix_value(digits, read as int + 1);
            }
            if c < '0' || c > '9' {
                return None;
            }
            let digit: usize = (c as u32 - '0' as u32) as usize;
            match value.checked_mul(10) {
                Some(tens) => match tens.checked_add(digit) {
                    Some(sum) => {
                        value = sum;
                    },
                    None => {
                        return None;
                    },
                },
                None => {
                    return None;
                },
            }
            any = true;
            proof {
                read = read + 1;
            }
        }
    }
    assert(digits.take(digits.len() as int) =~= digits);
    if any {
        Some(value)
    } else {
        None
    }
}

/// A digit by itself is a number, and no other character is. Nothing is not a number, nor is a
/// plus sign by itself; before a number it changes nothing.
pub proof fn law_shortest_numbers(c: char)
    ensures
        number(Seq::empty()) is None,
        number(seq!['+']) is None,
        number(seq![c]) is Some <==> '0' <= c <= '9',
        number(seq![c]) matches Some(n) ==> n == c as int - '0' as int,
        '0' <= c <= '9' ==> number(seq!['+', c]) == number(seq![c]),
        number(seq!['+', c]) is Some <==> '0' <= c <= '9',
{
    reveal_with_fuel(digits_value, 2);
    assert(seq!['+'].skip(1) =~= Seq::empty());
    assert(seq!['+', c].skip(1) =~= seq![c]);
    assert(seq![c].drop_last() =~= Seq::empty());
    if all_digits(seq![c]) {
        assert('0' <= seq![c][0] <= '9');
    }
}

/// A number is read on digit by digit: what follows it must be a digit, which is worth itself and
/// makes what was read before worth ten times as much, as long as `usize` holds the result. What
/// follows no number makes none.
pub proof fn law_numbers_are_read_on(text: Seq<char>, c: char)
    requires
        text.len() > 0,
        text != seq!['+'],
    ensures
        number(text.push(c)) is Some <==> number(text) is Some && '0' <= c <= '9' && number(text)->0
            * 10 + (c as int - '0' as int) <= usize::MAX,
        number(text.push(c)) matches Some(n) ==> n == number(text)->0 * 10 + (c as int
            - '0' as int),
{
    let digits = digits_of(text);
    let longer = digits_of(text.push(c));
    assert(longer =~= digits.push(c)) by {
        if text[0] == '+' {
            assert(text.push(c).skip(1) =~= text.skip(1).push(c));
        }
    }
    assert(digits.len() > 0) by {
        if text[0] == '+' && text.len() == 1 {
            assert(text =~= seq!['+']);
        }
    }
    assert(longer.drop_last() =~= digits);
    assert(longer.last() == c);
    if all_digits(longer) {
        assert forall|i: int| 0 <= i < digits.len() implies '0' <= #[trigger] digits[i] <= '9' by {
            assert(longer[i] == digits[i]);
        }
        assert('0' <= longer[digits.len() as int] <= '9');
    }
    if all_digits(digits) && '0' <= c <= '9' {
        assert(all_digits(longer));
    }
}

/// A setting stands for itself, and what stands in for it is taken only where there is none.
pub proof fn law_settings(setting: Option<String>, fallback: Seq<char>)
    ensures
        setting matches Some(text) ==> setting_or(setting, fallback) == text@,
        setting is None ==> setting_or(setting, fallback) == fallback,
{
}

/// The setting, or what stands in for it.
fn text_or(setting: Option<String>, fallback: &str) -> (text: String)
    ensures
        text@ == setting_or(setting, fallback@),
{
    match setting {
        Some(text) => text,
        None => fallback.to_string(),
    }
}

impl Config {
    /// The configuration that the settings make, with defaults where they say nothing. It is
    /// refused only where the limit on concurrency is set and is not a positive number.
    pub fn from_settings(settings: Settings) -> (config: Result<Config, ConfigError>)
        ensures
            config is Err <==> settings.max_concurrency is Some && (number(
                settings.max_concurrency->0@,
            ) is None || number(settings.max_concurrency->0@) == Some(0usize)),
            config matches Ok(c) ==> {
                &&& c.kafka_brokers@ == setting_or(settings.kafka_brokers, "localhost:9092"@)
                &&& c.input_topic@ == setting_or(settings.input_topic, "txn.raw"@)
                &&& c.output_topic@ == setting_or(settings.output_topic, "fraud.signals"@)
                &&& c.consumer_group@ == setting_or(settings.consumer_group, "fraud-processor-v1"@)
                &&& c.max_concurrency == match settings.max_concurrency {
                    Some(text) => number(text@)->0,
                    None => 256,
                }
                &&& c.poll_timeout_ms == 5
                &&& c.batch_size == 500
            },
    {
        let max_concurrency: usize = match settings.max_concurrency {
            Some(text) => match parse_number(text.as_str()) {
                Some(n) => {
                    if n == 0 {
                        return Err(ConfigError::MaxConcurrency);
                    }
                    n
                },
                None => {
                    return Err(ConfigError::MaxConcurrency);
                },
            },
            None => 256,
        };
        Ok(
            Config {
                kafka_brokers: text_or(settings.kafka_brokers, "localhost:9092"),
                input_topic: text_or(settings.input_topic, "txn.raw"),
                output_topic: text_or(settings.output_topic, "fraud.signals"),
                consumer_group: text_or(settings.consumer_group, "fraud-processor-v1"),
                max_concurrency,
                poll_timeout_ms: 5,
                batch_size: 500,
            },
        )
    }
}

} // verus!
