//! Resolution of a declarative test-network description into a concrete
//! topology: unique node names, per-node slices of one validator key pool,
//! and diagnostics that point at the offending places of the source text.

pub mod client;
pub mod codespan;
pub mod commands;
pub mod config;
pub mod diagnostic;
pub mod text;
pub mod validator;
