pub mod command;
pub mod entries;
pub mod error;
pub mod kv_store;
pub mod laws;
pub mod parsing_laws;
pub mod persistence;
pub mod protocol;
pub mod server;
pub mod text;

pub use command::{Command, CommandType};
pub use error::{Error, ErrorCategory};
pub use kv_store::KvStore;
