//! Wait until a condition holds, then give one compact verdict.
//!
//! The poll engine, the conditions it can wait on (an HTTP endpoint, a TCP
//! port, a file, a command, a GitHub Actions run), the verdict, and the
//! machine-readable description of the command line (`tarry schema`).

pub mod cli;
pub mod engine;
pub mod json;
pub mod pattern;
pub mod probe;
pub mod probes;
pub mod schema;
pub mod text;
pub mod verdict;
