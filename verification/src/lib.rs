//! Semantic-analysis core for a node-based systems language: the type model,
//! the syntax-tree vocabulary, and the variable and function symbol tables.

pub mod ast;
pub mod node_model;
pub mod scope_model;
pub mod symbol_table;
pub mod text;
pub mod type_model;
