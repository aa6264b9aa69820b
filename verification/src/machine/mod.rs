pub mod error;
pub mod program;
pub mod net;
pub mod host;
pub mod query;
