//! Verified core of the Kern compiler front end: tokens and AST operators,
//! literals, diagnostics, the command line, scopes, the type registry, the
//! typing rules and the pieces of lowering built on them.

pub mod driver;
pub mod mast;
pub mod parser;
pub mod sema;
pub mod utils;
