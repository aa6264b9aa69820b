//! Core logic of the n3 machine-learning toolkit: machine queries, the
//! variable graphs of the node builder, and the checks that the builder
//! applies to parsed tensor graphs.

pub mod ast;
pub mod machine;
pub mod builder;
pub mod text;
pub mod api;
