//! A single-pass, error-tolerant scanner that turns source text into
//! classified tokens.
//!
//! [`lexical`] states what a scan yields, as a function of the source;
//! [`scanner::Scanner`] computes it; [`laws`] proves what holds of every
//! scan.
pub mod token_type;
pub mod token;
pub mod runtime_status;
pub mod error;
pub mod lexical;
pub mod scanner;
pub mod laws;
