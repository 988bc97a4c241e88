//! Adapter logic for driving the `granitectl` command-line database tool.
//!
//! The crate holds the decision and parsing core of the adapter: resolving
//! which executable to invoke, classifying invocation outcomes, negotiating
//! between the tool's structured (JSON) output mode and its legacy text
//! modes, and parsing the two generations of legacy text output into the
//! canonical structured result shapes.

pub mod diagnostics;
pub mod exec_output;
pub mod invoke;
pub mod json;
pub mod metadata;
pub mod negotiate;
pub mod numbers;
pub mod resolve;
pub mod schema;
pub mod text;
