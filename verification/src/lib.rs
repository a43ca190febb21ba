//! Release tooling core: changelog rendering, ticket-key extraction,
//! assume-role output handling, configuration merging and the state
//! machine of the interactive browser.

pub mod text;
pub mod base64;
pub mod keyset;
pub mod jira;
pub mod role;
pub mod session;
pub mod changelog;
pub mod error;
pub mod remote;
pub mod paths;
pub mod sorting;
pub mod config;
pub mod s3;
pub mod pipeline;
pub mod recipe;
pub mod tui;
pub mod views;
pub mod github;
pub mod release;
pub mod cli;
