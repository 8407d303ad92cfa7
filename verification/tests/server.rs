use minikv::protocol::error;
use minikv::server::handler::{
    execute_read, format_write_result, process_line, ReadOperation, Request,
};
use minikv::server::writer::{apply_write, plan_write, write_result, Persist, WriteOperation};
use minikv::{Error, KvStore};

/// Runs one client line against the store the way the server does, with
/// persisting taken as successful.
fn serve(store: &mut KvStore, line: &str) -> String {
    match process_line(line) {
        Request::Reply(reply) => reply,
        Request::Read(op) => execute_read(&op, store),
        Request::Write(op) => {
            let _persist = plan_write(store, &op);
            format_write_result(apply_write(store, &op, true))
        }
    }
}

#[test]
fn handler_basic_commands() {
    let mut store = KvStore::new();
    assert_eq!(serve(&mut store, "set a b"), "OK");
    assert_eq!(serve(&mut store, "get a"), "b");
    assert_eq!(serve(&mut store, "length"), "1");
    assert_eq!(serve(&mut store, "snapshot"), "OK");
}

#[test]
fn handler_keeps_going_on_client_errors() {
    let mut store = KvStore::new();
    assert_eq!(serve(&mut store, "unknown cmd"), "ERROR \"UNKNOWN COMMAND\"");
    assert_eq!(serve(&mut store, "get missing"), "ERROR \"NOT FOUND\"");
    assert_eq!(serve(&mut store, "set a b"), "OK");
    assert_eq!(serve(&mut store, "get"), "ERROR \"MISSING ARGUMENT\"");
    assert_eq!(serve(&mut store, "length now"), "ERROR \"EXTRA ARGUMENT\"");
}

#[test]
fn process_line_requests() {
    match process_line("get k") {
        Request::Read(ReadOperation::Get { key }) => assert_eq!(key, "k"),
        _ => panic!("expected a read"),
    }
    match process_line("SET k") {
        Request::Write(WriteOperation::SetValue { key, value }) => {
            assert_eq!(key, "k");
            assert_eq!(value, "");
        }
        _ => panic!("expected a write"),
    }
    assert!(matches!(process_line("snapshot"), Request::Write(WriteOperation::Snapshot)));
    assert!(matches!(process_line("length"), Request::Read(ReadOperation::Length)));
}

#[test]
fn writer_persists_and_reports() {
    let mut store = KvStore::new();
    let set = WriteOperation::SetValue { key: "k".to_string(), value: "v".to_string() };
    match plan_write(&store, &set) {
        Persist::AppendLog(line) => assert_eq!(line, "set \"k\" \"v\""),
        _ => panic!("expected a log line"),
    }
    // planning changes nothing
    assert!(store.is_empty());
    assert_eq!(apply_write(&mut store, &set, true), Ok(()));
    assert_eq!(store.get("k"), Some("v"));
    match plan_write(&store, &WriteOperation::Snapshot) {
        Persist::SaveSnapshot(lines) => assert_eq!(lines, vec!["\"k\" \"v\"".to_string()]),
        _ => panic!("expected snapshot lines"),
    }
    assert_eq!(write_result(&set, false), Err(Error::InvalidLogFile));
    assert_eq!(write_result(&WriteOperation::Snapshot, false), Err(Error::InvalidDataFile));
    assert_eq!(format_write_result(Err(Error::InvalidLogFile)), error(Error::InvalidLogFile));
    assert_eq!(format_write_result(Ok(())), "OK");
}

#[test]
fn failed_log_append_leaves_store_unchanged() {
    let mut store = KvStore::new();
    let first = WriteOperation::SetValue { key: "k".to_string(), value: "1".to_string() };
    assert_eq!(apply_write(&mut store, &first, true), Ok(()));
    let second = WriteOperation::SetValue { key: "k".to_string(), value: "2".to_string() };
    assert_eq!(apply_write(&mut store, &second, false), Err(Error::InvalidLogFile));
    assert_eq!(store.get("k"), Some("1"));
    let remove = WriteOperation::SetValue { key: "k".to_string(), value: String::new() };
    assert_eq!(apply_write(&mut store, &remove, false), Err(Error::InvalidLogFile));
    assert_eq!(store.len(), 1);
}
