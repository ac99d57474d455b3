//! Commit-message generation logic: diff filtering and truncation, prompt
//! building, output sanitizing, configuration layering and the decisions of
//! the interactive session.

pub mod text;
pub mod filter;
pub mod sanitizer;
pub mod cli;
pub mod config;
pub mod prompt;
pub mod llm;
pub mod git;
pub mod ui;
pub mod session;
pub mod redact;
