use minikv::{Error, ErrorCategory};

#[test]
fn test_error_codes() {
    assert_eq!(Error::NotFound.code(), "NOT FOUND");
    assert_eq!(Error::ExtraArgument.code(), "EXTRA ARGUMENT");
    assert_eq!(Error::MissingArgument.code(), "MISSING ARGUMENT");
    assert_eq!(Error::UnknownCommand.code(), "UNKNOWN COMMAND");
    assert_eq!(Error::Timeout.code(), "TIMEOUT");
    assert_eq!(Error::ConnectionClosed.code(), "CONNECTION CLOSED");
    assert_eq!(Error::ClientSocketBinding.code(), "CLIENT SOCKET BINDING");
    assert_eq!(Error::InvalidArgs.code(), "INVALID ARGS");
    assert_eq!(Error::ServerSocketBinding.code(), "SERVER SOCKET BINDING");
    assert_eq!(Error::InvalidDataFile.code(), "INVALID DATA FILE");
    assert_eq!(Error::InvalidLogFile.code(), "INVALID LOG FILE");
}

#[test]
fn error_categories() {
    assert_eq!(Error::NotFound.category(), ErrorCategory::Client);
    assert_eq!(Error::ExtraArgument.category(), ErrorCategory::Client);
    assert_eq!(Error::MissingArgument.category(), ErrorCategory::Client);
    assert_eq!(Error::UnknownCommand.category(), ErrorCategory::Client);
    assert_eq!(Error::Timeout.category(), ErrorCategory::Communication);
    assert_eq!(Error::ConnectionClosed.category(), ErrorCategory::Communication);
    assert_eq!(Error::ClientSocketBinding.category(), ErrorCategory::Communication);
    assert_eq!(Error::InvalidArgs.category(), ErrorCategory::Server);
    assert_eq!(Error::ServerSocketBinding.category(), ErrorCategory::Server);
    assert_eq!(Error::InvalidDataFile.category(), ErrorCategory::Server);
    assert_eq!(Error::InvalidLogFile.category(), ErrorCategory::Server);
}
