//! Error kinds of the key-value server and client, with their protocol codes
//! and their categories.

use vstd::prelude::*;

verus! {

/// The three families into which errors fall.
#[derive(Debug, Copy, Clone, PartialEq, Eq, Structural)]
pub enum ErrorCategory {
    Client,
    Communication,
    Server,
}

/// Errors that the system can report.
#[derive(Debug, Copy, Clone, PartialEq, Eq, Structural)]
pub enum Error {
    // client errors
    NotFound,
    ExtraArgument,
    MissingArgument,
    UnknownCommand,
    // communication errors
    Timeout,
    ConnectionClosed,
    ClientSocketBinding,
    // server errors
    InvalidArgs,
    ServerSocketBinding,
    InvalidDataFile,
    InvalidLogFile,
}

impl Error {
    /// The exact protocol code of the error, as a sequence of characters.
    pub open spec fn spec_code(self) -> Seq<char> {
        match self {
            Error::NotFound => seq!['N', 'O', 'T', ' ', 'F', 'O', 'U', 'N', 'D'],
            Error::ExtraArgument => seq![
                'E', 'X', 'T', 'R', 'A', ' ', 'A', 'R', 'G', 'U', 'M', 'E', 'N', 'T',
            ],
            Error::MissingArgument => seq![
                'M', 'I', 'S', 'S', 'I', 'N', 'G', ' ', 'A', 'R', 'G', 'U', 'M', 'E', 'N', 'T',
            ],
            Error::UnknownCommand => seq![
                'U', 'N', 'K', 'N', 'O', 'W', 'N', ' ', 'C', 'O', 'M', 'M', 'A', 'N', 'D',
            ],
            Error::Timeout => seq!['T', 'I', 'M', 'E', 'O', 'U', 'T'],
            Error::ConnectionClosed => seq![
                'C', 'O', 'N', 'N', 'E', 'C', 'T', 'I', 'O', 'N', ' ', 'C', 'L', 'O', 'S', 'E', 'D',
            ],
            Error::ClientSocketBinding => seq![
                'C', 'L', 'I', 'E', 'N', 'T', ' ', 'S', 'O', 'C', 'K', 'E', 'T', ' ', 'B', 'I',
                'N', 'D', 'I', 'N', 'G',
            ],
            Error::InvalidArgs => seq!['I', 'N', 'V', 'A', 'L', 'I', 'D', ' ', 'A', 'R', 'G', 'S'],
            Error::ServerSocketBinding => seq![
                'S', 'E', 'R', 'V', 'E', 'R', ' ', 'S', 'O', 'C', 'K', 'E', 'T', ' ', 'B', 'I',
                'N', 'D', 'I', 'N', 'G',
            ],
            Error::InvalidDataFile => seq![
                'I', 'N', 'V', 'A', 'L', 'I', 'D', ' ', 'D', 'A', 'T', 'A', ' ', 'F', 'I', 'L', 'E',
            ],
            Error::InvalidLogFile => seq![
                'I', 'N', 'V', 'A', 'L', 'I', 'D', ' ', 'L', 'O', 'G', ' ', 'F', 'I', 'L', 'E',
            ],
        }
    }

    /// The category of the error.
    pub open spec fn spec_category(self) -> ErrorCategory {
        match self {
            Error::NotFound | Error::ExtraArgument | Error::MissingArgument
            | Error::UnknownCommand => ErrorCategory::Client,
            Error::Timeout | Error::ConnectionClosed
            | Error::ClientSocketBinding => ErrorCategory::Communication,
            Error::InvalidArgs | Error::ServerSocketBinding | Error::InvalidDataFile
            | Error::InvalidLogFile => ErrorCategory::Server,
        }
    }

    /// Returns the exact protocol code of the error.
    pub fn code(self) -> (code: &'static str)
        ensures
            code@ == self.spec_code(),
    {
        match self {
            Error::NotFound => {
                let s = "NOT FOUND";
                proof { reveal_strlit("NOT FOUND"); }
                s
            },
            Error::ExtraArgument => {
                let s = "EXTRA ARGUMENT";
                proof { reveal_strlit("EXTRA ARGUMENT"); }
                s
            },
            Error::MissingArgument => {
                let s = "MISSING ARGUMENT";
                proof { reveal_strlit("MISSING ARGUMENT"); }
                s
            },
            Error::UnknownCommand => {
                let s = "UNKNOWN COMMAND";
                proof { reveal_strlit("UNKNOWN COMMAND"); }
                s
            },
            Error::Timeout => {
                let s = "TIMEOUT";
                proof { reveal_strlit("TIMEOUT"); }
                s
            },
            Error::ConnectionClosed => {
                let s = "CONNECTION CLOSED";
                proof { reveal_strlit("CONNECTION CLOSED"); }
                s
            },
            Error::ClientSocketBinding => {
                let s = "CLIENT SOCKET BINDING";
                proof { reveal_strlit("CLIENT SOCKET BINDING"); }
                s
            },
            Error::InvalidArgs => {
                let s = "INVALID ARGS";
                proof { reveal_strlit("INVALID ARGS"); }
                s
            },
            Error::ServerSocketBinding => {
                let s = "SERVER SOCKET BINDING";
                proof { reveal_strlit("SERVER SOCKET BINDING"); }
                s
            },
            Error::InvalidDataFile => {
                let s = "INVALID DATA FILE";
                proof { reveal_strlit("INVALID DATA FILE"); }
                s
            },
            Error::InvalidLogFile => {
                let s = "INVALID LOG FILE";
                proof { reveal_strlit("INVALID LOG FILE"); }
                s
            },
        }
    }

    /// Returns the category of the error.
    pub fn category(self) -> (category: ErrorCategory)
        ensures
            category == self.spec_category(),
    {
        match self {
            Error::NotFound | Error::ExtraArgument | Error::MissingArgument
            | Error::UnknownCommand => ErrorCategory::Client,
            Error::Timeout | Error::ConnectionClosed
            | Error::ClientSocketBinding => ErrorCategory::Communication,
            Error::InvalidArgs | Error::ServerSocketBinding | Error::InvalidDataFile
            | Error::InvalidLogFile => ErrorCategory::Server,
        }
    }
}

} // verus!
