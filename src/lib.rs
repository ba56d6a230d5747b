//! An arena-backed node tree with stable, never reused identifiers and
//! cascading removal, together with the plain style data that callers attach
//! to its nodes.
pub mod model;
pub mod lemmas;
pub mod tree;
pub mod index_tree;
pub mod laws;
pub mod style;
pub mod styling;
pub mod component;
