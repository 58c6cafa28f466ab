//! Anti-LLM admissibility scanners and rules, plus the Little's Law WIP closure engine.
pub mod config;
pub mod diagnostics;
pub mod matching;
pub mod negative_controls;
pub mod observations;
pub mod parsers;
pub mod rules;
pub mod text;
pub mod wip;
