//! Verified core of a supply-chain guard for Cargo projects.
//!
//! The library decides whether the crates a project depends on may be
//! used: it validates names, parses policy settings, evaluates signed
//! analysis reports against the policy, resolves versions and plans the
//! cache and registry requests that the command-line front end performs.
pub mod cache;
pub mod cargo;
pub mod cli;
pub mod commands;
pub mod config;
pub mod error;
pub mod fetch;
pub mod github;
pub mod http;
pub mod keychain;
pub mod policy;
pub mod reports;
pub mod resolver;
pub mod signing;
pub mod text;
pub mod validate;
pub mod versions;
