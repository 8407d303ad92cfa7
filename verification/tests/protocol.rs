use minikv::protocol::{error, number, ok, value};
use minikv::Error;

#[test]
fn test_ok() {
    assert_eq!(ok(), "OK");
}

#[test]
fn test_error() {
    assert_eq!(error(Error::NotFound), "ERROR \"NOT FOUND\"");
}

#[test]
fn test_number() {
    assert_eq!(number(42), "42");
    assert_eq!(number(0), "0");
}

#[test]
fn test_value() {
    assert_eq!(value("hello"), "hello");
    assert_eq!(value("hello world"), "hello world");
}

#[test]
fn number_edges() {
    assert_eq!(number(9), "9");
    assert_eq!(number(10), "10");
    assert_eq!(number(1007), "1007");
    assert_eq!(number(usize::MAX), usize::MAX.to_string());
}

#[test]
fn error_replies_for_every_code() {
    assert_eq!(error(Error::UnknownCommand), "ERROR \"UNKNOWN COMMAND\"");
    assert_eq!(error(Error::InvalidLogFile), "ERROR \"INVALID LOG FILE\"");
    assert_eq!(error(Error::Timeout), "ERROR \"TIMEOUT\"");
    assert_eq!(value(""), "");
}
