pub mod condition;
pub mod strmap;
pub mod error;
pub mod graph;
pub mod seed;
pub mod vars;
pub mod tensor;
pub mod compact;
pub mod nodes;
pub mod sources;
pub mod tensor_graph;
pub mod concat;
pub mod builtins;
pub mod calls;
