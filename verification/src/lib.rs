//! Verified core of an interactive chat client: prompt templates, the
//! stop-sequence filter, running statistics and the conversation loop's
//! decisions.

pub mod config;
pub mod conversation;
pub mod decimal;
pub mod filter;
pub mod prompt;
pub mod seeding;
pub mod stats;
pub mod text;
