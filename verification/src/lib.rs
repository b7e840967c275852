//! orchd: keep services running from one declarative file.

pub mod cli;
pub mod codec;
pub mod collections;
pub mod config;
pub mod engine;
pub mod exec;
pub mod keyed;
pub mod laws;
pub mod orchard;
pub mod orchdi;
pub mod paths;
pub mod platform;
pub mod runtime;
pub mod text;
pub mod types;
