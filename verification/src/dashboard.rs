//! The dashboard server: sessions and API keys, the team allowlist, agent
//! discovery and proxying, platform secrets and migrations.
pub mod analytics;
pub mod api_keys;
pub mod config;
pub mod middleware;
pub mod migrations;
pub mod oauth;
pub mod proxy;
pub mod registry;
pub mod secrets;
pub mod services;
pub mod session;
pub mod sources;
pub mod team;
