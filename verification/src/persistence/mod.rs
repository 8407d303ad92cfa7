//! The two persistent forms of the store: the operation log, one line per
//! change, and the snapshot, one line per key.

pub mod log;
pub mod store;
