//! The error taxonomy of the node. Every operation returns either its
//! value or one of these tagged variants; callers decide what to do.
//!
//! Variants that wrap an outside failure (I/O, JSON) carry its text:
//! the conversion happens at the edge, so the library speaks only in
//! plain strings.

use vstd::prelude::*;
use vstd::string::StringExecFns;

verus! {

/// What can go wrong in the node's core operations.
#[derive(Debug)]
pub enum AppError {
    /// Discovery lifecycle violation (already or not running).
    DiscoveryError(String),
    /// Chat operation failure.
    ChatError(String),
    /// Transfer precondition violated (missing path or address).
    FileTransferError(String),
    /// Connect, read, write, flush or timeout failure.
    NetworkError(String),
    /// Local filesystem failure, as text.
    IoError(String),
    /// JSON encode or decode failure of a wire message.
    SerializationError(String),
    /// mDNS daemon failure, including creation-retry exhaustion.
    MdnsError(String),
    /// A user id that no record matches.
    UserNotFound(String),
    /// A path with no file behind it.
    FileNotFound(String),
    /// A transfer id that no record matches.
    TransferNotFound(String),
    /// Any other precondition violation.
    InvalidOperation(String),
    /// Anything else.
    Other(String),
}

/// The rendered text of an error: a fixed prefix naming the kind, then
/// the carried detail.
pub open spec fn error_text(e: AppError) -> Seq<char> {
    match e {
        AppError::DiscoveryError(m) => ("Network discovery error: ")@ + m@,
        AppError::ChatError(m) => ("Chat error: ")@ + m@,
        AppError::FileTransferError(m) => ("File transfer error: ")@ + m@,
        AppError::NetworkError(m) => ("Network error: ")@ + m@,
        AppError::IoError(m) => ("I/O error: ")@ + m@,
        AppError::SerializationError(m) => ("Serialization error: ")@ + m@,
        AppError::MdnsError(m) => ("mDNS error: ")@ + m@,
        AppError::UserNotFound(m) => ("User not found: ")@ + m@,
        AppError::FileNotFound(m) => ("File not found: ")@ + m@,
        AppError::TransferNotFound(m) => ("Transfer not found: ")@ + m@,
        AppError::InvalidOperation(m) => ("Invalid operation: ")@ + m@,
        AppError::Other(m) => ("Other error: ")@ + m@,
    }
}

impl AppError {
    /// Renders the error for the UI, exactly as [`error_text`] says.
    pub fn message(&self) -> (r: String)
        ensures
            r@ == error_text(*self),
    {
        match self {
            AppError::DiscoveryError(m) => String::from_str("Network discovery error: ").concat(
                m.as_str(),
            ),
            AppError::ChatError(m) => String::from_str("Chat error: ").concat(m.as_str()),
            AppError::FileTransferError(m) => String::from_str("File transfer error: ").concat(
                m.as_str(),
            ),
            AppError::NetworkError(m) => String::from_str("Network error: ").concat(m.as_str()),
            AppError::IoError(m) => String::from_str("I/O error: ").concat(m.as_str()),
            AppError::SerializationError(m) => String::from_str("Serialization error: ").concat(
                m.as_str(),
            ),
            AppError::MdnsError(m) => String::from_str("mDNS error: ").concat(m.as_str()),
            AppError::UserNotFound(m) => String::from_str("User not found: ").concat(m.as_str()),
            AppError::FileNotFound(m) => String::from_str("File not found: ").concat(m.as_str()),
            AppError::TransferNotFound(m) => String::from_str("Transfer not found: ").concat(
                m.as_str(),
            ),
            AppError::InvalidOperation(m) => String::from_str("Invalid operation: ").concat(
                m.as_str(),
            ),
            AppError::Other(m) => String::from_str("Other error: ").concat(m.as_str()),
        }
    }
}

} // verus!
