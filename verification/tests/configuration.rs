use fraud_signal::config::{parse_number, Config, ConfigError, Settings};

fn unset() -> Settings {
    Settings {
        kafka_brokers: None,
        input_topic: None,
        output_topic: None,
        consumer_group: None,
        max_concurrency: None,
    }
}

#[test]
fn defaults() {
    let config = Config::from_settings(unset()).unwrap();
    assert_eq!(config.kafka_brokers, "localhost:9092");
    assert_eq!(config.input_topic, "txn.raw");
    assert_eq!(config.output_topic, "fraud.signals");
    assert_eq!(config.consumer_group, "fraud-processor-v1");
    assert_eq!(config.max_concurrency, 256);
    assert_eq!(config.poll_timeout_ms, 5);
    assert_eq!(config.batch_size, 500);
}

#[test]
fn settings_override_defaults() {
    let config = Config::from_settings(Settings {
        kafka_brokers: Some("k1:9092,k2:9092".into()),
        input_topic: Some("in".into()),
        output_topic: Some("".into()),
        consumer_group: Some("g".into()),
        max_concurrency: Some("32".into()),
    })
    .unwrap();
    assert_eq!(config.kafka_brokers, "k1:9092,k2:9092");
    assert_eq!(config.input_topic, "in");
    assert_eq!(config.output_topic, "");
    assert_eq!(config.consumer_group, "g");
    assert_eq!(config.max_concurrency, 32);
}

#[test]
fn concurrency_must_be_a_number() {
    let settings = Settings { max_concurrency: Some("many".into()), ..unset() };
    let error = Config::from_settings(settings).unwrap_err();
    assert_eq!(error, ConfigError::MaxConcurrency);
    assert_eq!(error.message(), "MAX_CONCURRENCY must be a positive integer");
}

#[test]
fn concurrency_must_be_positive() {
    for text in ["0", "+0", "000"] {
        let settings = Settings { max_concurrency: Some(text.into()), ..unset() };
        let error = Config::from_settings(settings).unwrap_err();
        assert_eq!(error, ConfigError::MaxConcurrency);
    }
    let settings = Settings { max_concurrency: Some("1".into()), ..unset() };
    assert_eq!(Config::from_settings(settings).unwrap().max_concurrency, 1);
}

#[test]
fn numbers_are_read_as_the_standard_library_reads_them() {
    let texts = [
        "", "+", "-", "0", "7", "+7", "-7", "007", "256", " 1", "1 ", "1_000", "++1", "1+", "0x10",
        "\u{661}", "18446744073709551615", "18446744073709551616", "99999999999999999999999",
        "+18446744073709551615", "999999999999999999999x",
    ];
    for text in texts {
        assert_eq!(parse_number(text), text.parse::<usize>().ok(), "{}", text);
    }
    assert_eq!(parse_number("+42"), Some(42));
}
