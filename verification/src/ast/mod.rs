pub mod fmt;
pub mod graph_node;
pub mod types;
pub mod uses;
pub mod value;
pub mod value_text;
pub mod value_ops;
