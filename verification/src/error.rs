//! Errors produced by the tray library.
use vstd::prelude::*;
use vstd::string::*;

verus! {

/// Errors produced by `ldtray`.
///
/// The most important variants for daemons are [`Error::Unsupported`] and
/// [`Error::LibraryLoad`]: both mean "no tray here, but nothing is wrong with
/// your program". Treating them as non-fatal is the intended usage.
#[derive(Debug)]
#[non_exhaustive]
pub enum Error {
    /// The current platform has no tray backend, or no display/session is
    /// available (for example a headless server, or an unknown target OS).
    Unsupported,
    /// A required platform library could not be loaded at runtime. The string
    /// carries the underlying loader message.
    LibraryLoad(String),
    /// The backend was reachable but rejected an operation. The string carries a
    /// human-readable description.
    Backend(String),
    /// The event loop is no longer running, so a `TrayHandle` command could not
    /// be delivered.
    Disconnected,
}

/// Convenience alias for results returned by this crate.
pub type Result<T> = std::result::Result<T, Error>;

/// The human-readable text of an error.
pub open spec fn error_text(e: Error) -> Seq<char> {
    match e {
        Error::Unsupported => "tray is not supported in this environment"@,
        Error::LibraryLoad(msg) => "failed to load platform library: "@ + msg@,
        Error::Backend(msg) => "tray backend error: "@ + msg@,
        Error::Disconnected => "tray event loop is no longer running"@,
    }
}

impl Error {
    /// The text shown for this error to a user.
    pub fn description(&self) -> (r: String)
        ensures
            r@ == error_text(*self),
    {
        match self {
            Error::Unsupported => String::from_str("tray is not supported in this environment"),
            Error::LibraryLoad(msg) => {
                let mut s = String::from_str("failed to load platform library: ");
                s.append(msg.as_str());
                s
            },
            Error::Backend(msg) => {
                let mut s = String::from_str("tray backend error: ");
                s.append(msg.as_str());
                s
            },
            Error::Disconnected => String::from_str("tray event loop is no longer running"),
        }
    }
}

} // verus!
