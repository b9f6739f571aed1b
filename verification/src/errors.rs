//! Fatal setup errors surfaced to the host shell when launching the backend
//! fails. Transient conditions (handshake file not yet present or unparsable,
//! health endpoint not yet answering) are not errors: the poller retries them.

use vstd::prelude::*;

verus! {

/// A fatal error that aborts application startup.
pub enum SetupError {
    /// The launcher's own executable directory could not be determined.
    ExeDirUnknown,
    /// The backend executable is absent at the expected path (carried here).
    MissingBackend { path: String },
    /// The operating system refused to start the backend process.
    SpawnFailure { message: String },
    /// The application data directory could not be created or written.
    DataDirFailure { message: String },
    /// The handshake file never held a valid record within the deadline.
    HandshakeTimeout,
    /// The health endpoint never answered successfully within the deadline.
    HealthTimeout,
    /// Any other fatal condition, described by a message.
    Other { message: String },
}

impl SetupError {
    /// The human-readable description of this error.
    pub open spec fn spec_message(&self) -> Seq<char> {
        match self {
            SetupError::ExeDirUnknown => "Cannot determine executable directory"@,
            SetupError::MissingBackend { path } => "Missing backend exe next to app: "@ + path@,
            SetupError::SpawnFailure { message } => "Failed to spawn backend: "@ + message@,
            SetupError::DataDirFailure { message } => "Cannot prepare data directory: "@
                + message@,
            SetupError::HandshakeTimeout => "Timeout waiting for backend port-file"@,
            SetupError::HealthTimeout => "Timeout waiting for backend /api/health"@,
            SetupError::Other { message } => message@,
        }
    }

    /// Renders the description as an owned string.
    pub fn message(&self) -> (r: String)
        ensures
            r@ == self.spec_message(),
    {
        match self {
            SetupError::ExeDirUnknown => "Cannot determine executable directory".to_owned(),
            SetupError::MissingBackend { path } => {
                let mut m = "Missing backend exe next to app: ".to_owned();
                m.append(path.as_str());
                m
            },
            SetupError::SpawnFailure { message } => {
                let mut m = "Failed to spawn backend: ".to_owned();
                m.append(message.as_str());
                m
            },
            SetupError::DataDirFailure { message } => {
                let mut m = "Cannot prepare data directory: ".to_owned();
                m.append(message.as_str());
                m
            },
            SetupError::HandshakeTimeout => "Timeout waiting for backend port-file".to_owned(),
            SetupError::HealthTimeout => "Timeout waiting for backend /api/health".to_owned(),
            SetupError::Other { message } => message.clone(),
        }
    }
}

/// Wraps a free-form message as a fatal setup error.
pub fn boxed_err(msg: String) -> (r: SetupError)
    ensures
        r == (SetupError::Other { message: msg }),
{
    SetupError::Other { message: msg }
}

} // verus!
