//! The decisions of the server: what a client's line asks for, what the reply
//! to a read is, and what a write changes and must persist. Sockets, threads
//! and channels stay outside the library.

pub mod handler;
pub mod writer;
