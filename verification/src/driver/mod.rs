pub mod cli;
pub mod config;
pub mod context;
pub mod diagnostic;
