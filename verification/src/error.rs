//! The library's error type. Errors that come from the operating system or
//! the database carry their message as text.

use vstd::prelude::*;

verus! {

/// What can go wrong in the library.
#[derive(Clone, Debug)]
pub enum Error {
    Io(String),
    Database(String),
    Serialization(String),
    Keyring(String),
    Imap(String),
    Tls(String),
    /// Account, then the server's reason.
    AuthFailed(String, String),
    AccountNotFound(String),
    FolderNotFound(String),
    /// File, expected digest, computed digest.
    ChecksumMismatch(String, String, String),
    Config(String),
    Parse(String),
    Other(String),
}

/// `Error` over plain values.
pub enum ErrorView {
    Io(Seq<char>),
    Database(Seq<char>),
    Serialization(Seq<char>),
    Keyring(Seq<char>),
    Imap(Seq<char>),
    Tls(Seq<char>),
    AuthFailed(Seq<char>, Seq<char>),
    AccountNotFound(Seq<char>),
    FolderNotFound(Seq<char>),
    ChecksumMismatch(Seq<char>, Seq<char>, Seq<char>),
    Config(Seq<char>),
    Parse(Seq<char>),
    Other(Seq<char>),
}

pub open spec fn error_view(e: Error) -> ErrorView {
    match e {
        Error::Io(m) => ErrorView::Io(m@),
        Error::Database(m) => ErrorView::Database(m@),
        Error::Serialization(m) => ErrorView::Serialization(m@),
        Error::Keyring(m) => ErrorView::Keyring(m@),
        Error::Imap(m) => ErrorView::Imap(m@),
        Error::Tls(m) => ErrorView::Tls(m@),
        Error::AuthFailed(a, m) => ErrorView::AuthFailed(a@, m@),
        Error::AccountNotFound(m) => ErrorView::AccountNotFound(m@),
        Error::FolderNotFound(m) => ErrorView::FolderNotFound(m@),
        Error::ChecksumMismatch(f, x, c) => ErrorView::ChecksumMismatch(f@, x@, c@),
        Error::Config(m) => ErrorView::Config(m@),
        Error::Parse(m) => ErrorView::Parse(m@),
        Error::Other(m) => ErrorView::Other(m@),
    }
}

/// The text an error is shown with.
pub open spec fn error_text(e: Error) -> Seq<char> {
    match e {
        Error::Io(m) => "I/O error: "@ + m@,
        Error::Database(m) => "Database error: "@ + m@,
        Error::Serialization(m) => "Serialization error: "@ + m@,
        Error::Keyring(m) => "Keyring error: "@ + m@,
        Error::Imap(m) => "IMAP error: "@ + m@,
        Error::Tls(m) => "TLS error: "@ + m@,
        Error::AuthFailed(a, m) => "Authentication failed for account '"@ + a@ + "': "@ + m@,
        Error::AccountNotFound(m) => "Account not found: "@ + m@,
        Error::FolderNotFound(m) => "Folder not found: "@ + m@,
        Error::ChecksumMismatch(f, x, c) => "Checksum mismatch for file '"@ + f@ + "': expected "@ + x@
            + ", computed "@ + c@,
        Error::Config(m) => "Configuration error: "@ + m@,
        Error::Parse(m) => "Parsing error: "@ + m@,
        Error::Other(m) => "Generic error: "@ + m@,
    }
}

impl Error {
    /// The text the error is shown with.
    pub fn message(&self) -> (r: String)
        ensures
            r@ == error_text(*self),
    {
        match self {
            Error::Io(m) => String::from_str("I/O error: ").concat(m.as_str()),
            Error::Database(m) => String::from_str("Database error: ").concat(m.as_str()),
            Error::Serialization(m) => String::from_str("Serialization error: ").concat(m.as_str()),
            Error::Keyring(m) => String::from_str("Keyring error: ").concat(m.as_str()),
            Error::Imap(m) => String::from_str("IMAP error: ").concat(m.as_str()),
            Error::Tls(m) => String::from_str("TLS error: ").concat(m.as_str()),
            Error::AuthFailed(a, m) => String::from_str("Authentication failed for account '").concat(
                a.as_str(),
            ).concat("': ").concat(m.as_str()),
            Error::AccountNotFound(m) => String::from_str("Account not found: ").concat(m.as_str()),
            Error::FolderNotFound(m) => String::from_str("Folder not found: ").concat(m.as_str()),
            Error::ChecksumMismatch(f, x, c) => String::from_str("Checksum mismatch for file '").concat(
                f.as_str(),
            ).concat("': expected ").concat(x.as_str()).concat(", computed ").concat(c.as_str()),
            Error::Config(m) => String::from_str("Configuration error: ").concat(m.as_str()),
            Error::Parse(m) => String::from_str("Parsing error: ").concat(m.as_str()),
            Error::Other(m) => String::from_str("Generic error: ").concat(m.as_str()),
        }
    }
}

} // verus!
