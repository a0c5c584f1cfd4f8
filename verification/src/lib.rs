//! Graph-model traversal, an array memory model, and an interaction-net
//! expression engine, with machine-checked contracts.

pub mod error;
pub mod lists;
pub mod text;
pub mod types;
pub mod array;
pub mod schema;
pub mod identity;
pub mod graph;
pub mod visitors;
pub mod vm;
pub mod tape;
