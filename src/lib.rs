//! A rule-execution engine for static analysis: in-source suppression
//! directives, generated-file detection, per-path rule arguments read from a
//! configuration file, and the bookkeeping that turns the outcome of a rule's
//! script into a result record. The secrets scanner's rule-file model lives
//! here too.

pub mod analysis;
pub mod arguments;
pub mod config;
pub mod execution;
pub mod generated;
pub mod language;
pub mod model;
pub mod secrets;
pub mod suppression;
pub mod text;
