pub mod collect;
pub mod prune;
pub mod resolve_imports;
pub mod resolve_path;
pub mod resolve_types;
pub mod scope;
pub mod ty;
pub mod typeck;
