//! Verified core of a YouTube command-line client: parsing of InnerTube
//! responses, protobuf continuation tokens, Markdown rendering, caching
//! rules and request policies.
pub mod cli;
pub mod error;
pub mod model;
pub mod text;
pub mod json;
pub mod api;
pub mod seqs;
pub mod pattern;
pub mod output;
pub mod cache;
pub mod config;
pub mod commands;
pub mod laws;
