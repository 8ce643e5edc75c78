# fraud_signal

Scores card transactions for fraud, as they arrive, and decides whether each is blocked, sent to
review or passed on.

The composite score of a transaction is `F = 0.50 R + 0.30 V + 0.20 E`, unless other weights are
chosen:

- `R`, the rule score: the severities of the rules that the transaction breaks, to 100 at most;
- `V`, the velocity score: how many transactions its account made in the last 60 seconds and how
  much it spent;
- `E`, the entropy score: how random the merchant's name looks.

| F        | decision |
|----------|----------|
| >= 80    | block    |
| 50 - 79  | review   |
| < 50     | pass     |

## Layout

`src/` is the library, verified with Verus. All scores in it are exact: whole points, or integer
fractions of a point.

| module      | what it holds                                                     |
|-------------|-------------------------------------------------------------------|
| `types`     | transactions, features, signals                                   |
| `window`    | the model of the sliding window, and its laws                     |
| `extractor` | `FeatureExtractor`: the window of every account, velocity         |
| `entropy`   | character counts, and the entropy score                           |
| `rules`     | `RuleEngine`: the rules and their evaluation                      |
| `score`     | weights, composite score, `Decision`                              |
| `signal`    | from a transaction to its signal                                  |
| `consumer`  | what the consumer does with messages and errors                   |
| `config`    | settings, defaults                                                |
| `emitter`   | where metrics will be kept                                        |
| `clock`     | the time of day, from `std` and `chrono`, which is trusted        |
| `text`      | comparing text                                                    |

`app/` is the processor around it: Kafka, JSON, the environment, logging, and the logarithms of
the Shannon entropy. `tests/` holds the tests of the library.
