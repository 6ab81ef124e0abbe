//! The watcher agent: GitHub repositories it follows, the commits it
//! records, and the summaries it asks a language model for.
pub mod config;
pub mod github;
pub mod manifest;
pub mod repos;
pub mod worker;
