//! Arithmetic expressions: text to tokens, tokens to a tree, and the tree to a value.

pub mod bindings;
pub mod builder;
pub mod faces;
pub mod finalize;
pub mod laws;
pub mod lexem;
pub mod registry;
pub mod tree;
