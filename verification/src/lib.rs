//! Fraud signals for card transactions.
//!
//! A transaction is turned into features (how fast its account is spending, how random its
//! merchant name looks), the features into a rule score, and the scores into one composite
//! score with a decision: block, review or pass.

pub mod clock;
pub mod config;
pub mod consumer;
pub mod emitter;
pub mod entropy;
pub mod extractor;
pub mod rules;
pub mod score;
pub mod signal;
pub mod text;
pub mod types;
pub mod window;
