//! The writer: the one party that changes the store. Each write first says
//! what must be persisted; only once that is done does a change reach the
//! store in memory, and the outcome of persisting decides the reply.

use vstd::prelude::*;

use crate::command::views;
use crate::entries::Entry;
use crate::error::Error;
use crate::kv_store::{set_effect, KvStore};
use crate::persistence::log::{format_operation, log_line};
use crate::persistence::store::data_line;

verus! {

/// A write that a client asks of the store.
pub enum WriteOperation {
    SetValue { key: String, value: String },
    Snapshot,
}

/// What a write must persist: a line appended to the operation log, or the
/// lines of a new snapshot (after which the log is emptied).
pub enum Persist {
    AppendLog(String),
    SaveSnapshot(Vec<String>),
}

/// The outcome of a write, sent back to the client that asked for it.
pub type WriteResult = Result<(), Error>;

/// The log line that a `set` must append before it changes the store.
pub fn execute_set(key: &str, value: &str) -> (p: Persist)
    ensures
        p matches Persist::AppendLog(line) && line@ == log_line(key@, value@),
{
    Persist::AppendLog(format_operation(key, value))
}

/// Takes a snapshot of the store and gives its lines to save.
pub fn execute_snapshot(store: &KvStore) -> (p: Persist)
    ensures
        p matches Persist::SaveSnapshot(lines) && views(lines@) == store.entries().map_values(
            |e: Entry| data_line(e.0, e.1),
        ),
{
    Persist::SaveSnapshot(store.snapshot())
}

/// What a write must persist, before it changes anything: the log line of a
/// `set`, or the lines of a snapshot of the store as it stands.
pub fn plan_write(store: &KvStore, op: &WriteOperation) -> (p: Persist)
    ensures
        match op {
            WriteOperation::SetValue { key, value } => (p matches Persist::AppendLog(line)
                && line@ == log_line(key@, value@)),
            WriteOperation::Snapshot => (p matches Persist::SaveSnapshot(lines) && views(lines@)
                == store.entries().map_values(|e: Entry| data_line(e.0, e.1))),
        },
{
    match op {
        WriteOperation::SetValue { key, value } => execute_set(key.as_str(), value.as_str()),
        WriteOperation::Snapshot => execute_snapshot(store),
    }
}

/// Completes a write once it is known whether what `plan_write` gave was
/// persisted. The log comes first: a `set` changes the store only once its
/// line is in the log; a snapshot changes nothing in memory. Gives the outcome
/// to reply with.
pub fn apply_write(store: &mut KvStore, op: &WriteOperation, persisted: bool) -> (r: WriteResult)
    ensures
        r == spec_write_result(op, persisted),
        match op {
            WriteOperation::SetValue { key, value } => if persisted {
                final(store)@ == set_effect(old(store)@, key@, value@)
            } else {
                *final(store) == *old(store)
            },
            WriteOperation::Snapshot => *final(store) == *old(store),
        },
{
    if persisted {
        match op {
            WriteOperation::SetValue { key, value } => {
                let _line = store.set(key.as_str(), value.as_str());
            },
            WriteOperation::Snapshot => {},
        }
    }
    write_result(op, persisted)
}

/// The outcome of a write once persisting it succeeded or failed.
pub open spec fn spec_write_result(op: &WriteOperation, persisted: bool) -> WriteResult {
    if persisted {
        Ok(())
    } else {
        Err(
            match op {
                WriteOperation::SetValue { .. } => Error::InvalidLogFile,
                WriteOperation::Snapshot => Error::InvalidDataFile,
            },
        )
    }
}

/// The outcome of a write once persisting it succeeded or failed: a log that
/// cannot be written is `InvalidLogFile`, a snapshot that cannot be saved is
/// `InvalidDataFile`.
pub fn write_result(op: &WriteOperation, persisted: bool) -> (r: WriteResult)
    ensures
        r == spec_write_result(op, persisted),
{
    if persisted {
        Ok(())
    } else {
        match op {
            WriteOperation::SetValue { .. } => Err(Error::InvalidLogFile),
            WriteOperation::Snapshot => Err(Error::InvalidDataFile),
        }
    }
}

} // verus!
