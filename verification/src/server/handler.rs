//! The handler: reads a client's line as a command, answers reads from the
//! store, and hands writes over to the writer.

use vstd::prelude::*;

use crate::command::{spec_command, words, Command, CommandType};
use crate::error::Error;
use crate::kv_store::KvStore;
use crate::protocol::{decimal, spec_error, spec_ok};
use crate::protocol;
use crate::server::writer::{WriteOperation, WriteResult};

verus! {

/// A read that a client asks of the store.
pub enum ReadOperation {
    Get { key: String },
    Length,
}

/// What a client's line calls for: a reply right away, a read of the store, or
/// a write by the writer.
pub enum Request {
    Reply(String),
    Read(ReadOperation),
    Write(WriteOperation),
}

/// The request that a command of type `t.0`, key `t.1` and value `t.2`
/// calls for.
pub open spec fn is_request_for(
    r: Request,
    t: (CommandType, Option<Seq<char>>, Option<Seq<char>>),
) -> bool {
    match t.0 {
        CommandType::Get => match t.1 {
            Some(k) => (r matches Request::Read(ReadOperation::Get { key }) && key@ == k),
            None => (r matches Request::Reply(s) && s@ == spec_error(Error::NotFound)),
        },
        CommandType::Length => (r matches Request::Read(ReadOperation::Length)),
        CommandType::SetValue => match t.1 {
            Some(k) => (r matches Request::Write(WriteOperation::SetValue { key, value }) && key@ == k
                && value@ == match t.2 {
                Some(v) => v,
                None => Seq::<char>::empty(),
            }),
            None => (r matches Request::Reply(s) && s@ == spec_error(Error::NotFound)),
        },
        CommandType::Snapshot => (r matches Request::Write(WriteOperation::Snapshot)),
    }
}

/// The request that a client's line calls for: the reply `ERROR "<CODE>"`
/// where the line is no valid command.
pub open spec fn is_request_for_line(r: Request, line: Seq<char>) -> bool {
    match spec_command(seq![Seq::<char>::empty()] + words(line)) {
        Err(e) => (r matches Request::Reply(s) && s@ == spec_error(e)),
        Ok(t) => is_request_for(r, t),
    }
}

/// Reads a client's line as a command and says what it calls for.
pub fn process_line(line: &str) -> (r: Request)
    ensures
        is_request_for_line(r, line@),
{
    match Command::parse_from_string(line) {
        Ok(cmd) => execute_command(&cmd),
        Err(e) => Request::Reply(protocol::error(e)),
    }
}

/// Says what a command calls for.
pub fn execute_command(cmd: &Command) -> (r: Request)
    ensures
        is_request_for(r, (cmd.kind(), cmd.key(), cmd.value())),
{
    match cmd.get_type() {
        CommandType::Get => match cmd.get_key() {
            Ok(key) => Request::Read(ReadOperation::Get { key }),
            Err(e) => Request::Reply(protocol::error(e)),
        },
        CommandType::SetValue => execute_set(cmd),
        CommandType::Length => Request::Read(ReadOperation::Length),
        CommandType::Snapshot => execute_snapshot(),
    }
}

/// The write that a `set` command calls for.
fn execute_set(cmd: &Command) -> (r: Request)
    requires
        cmd.kind() == CommandType::SetValue,
    ensures
        is_request_for(r, (cmd.kind(), cmd.key(), cmd.value())),
{
    let key = match cmd.get_key() {
        Ok(k) => k,
        Err(e) => {
            return Request::Reply(protocol::error(e));
        },
    };
    let value = match cmd.get_value() {
        Ok(v) => v,
        Err(e) => {
            return Request::Reply(protocol::error(e));
        },
    };
    Request::Write(WriteOperation::SetValue { key, value })
}

/// The write that a `snapshot` command calls for.
fn execute_snapshot() -> (r: Request)
    ensures
        r matches Request::Write(WriteOperation::Snapshot),
{
    Request::Write(WriteOperation::Snapshot)
}

/// The reply to a `get`: the value of the key, or `ERROR "NOT FOUND"`.
pub fn execute_get(key: &str, store: &KvStore) -> (r: String)
    ensures
        store@.contains_key(key@) ==> r@ == store@[key@],
        !store@.contains_key(key@) ==> r@ == spec_error(Error::NotFound),
{
    match store.get(key) {
        Some(value) => protocol::value(value),
        None => protocol::error(Error::NotFound),
    }
}

/// The reply to a `length`: the number of keys, in decimal.
pub fn execute_length(store: &KvStore) -> (r: String)
    ensures
        r@ == decimal(store@.len()),
{
    protocol::number(store.len())
}

/// The reply to a read.
pub fn execute_read(op: &ReadOperation, store: &KvStore) -> (r: String)
    ensures
        match op {
            ReadOperation::Get { key } => if store@.contains_key(key@) {
                r@ == store@[key@]
            } else {
                r@ == spec_error(Error::NotFound)
            },
            ReadOperation::Length => r@ == decimal(store@.len()),
        },
{
    match op {
        ReadOperation::Get { key } => execute_get(key.as_str(), store),
        ReadOperation::Length => execute_length(store),
    }
}

/// The reply to a write, given its outcome: `OK`, or `ERROR "<CODE>"`.
pub fn format_write_result(result: WriteResult) -> (r: String)
    ensures
        match result {
            Ok(()) => r@ == spec_ok(),
            Err(e) => r@ == spec_error(e),
        },
{
    match result {
        Ok(()) => protocol::ok(),
        Err(err) => protocol::error(err),
    }
}

} // verus!
