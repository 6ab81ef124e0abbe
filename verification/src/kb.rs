//! The knowledgebase agent: documents organised in knowledgebases and
//! folders, vault import and export, and the checks on what callers send.
pub mod chat;
pub mod config;
pub mod documents;
pub mod folders;
pub mod identity;
pub mod import;
pub mod knowledgebase;
pub mod manifest;
pub mod vault;
