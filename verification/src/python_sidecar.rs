//! Errors and message shapes of the Python sidecar manager.

use vstd::prelude::*;
use vstd::string::StringExecFns;

verus! {

/// Errors of the Python sidecar manager.
#[derive(Debug, Clone, PartialEq, Eq)]
pub enum PythonSidecarError {
    StartupFailed(String),
    CommunicationFailed(String),
    ProcessNotRunning,
}

/// Message of an error.
pub open spec fn python_sidecar_error_text(e: PythonSidecarError) -> Seq<char> {
    match e {
        PythonSidecarError::StartupFailed(m) => "Failed to start Python process: "@ + m@,
        PythonSidecarError::CommunicationFailed(m) => "Failed to communicate with Python process: "@ + m@,
        PythonSidecarError::ProcessNotRunning => "Python process not running"@,
    }
}

impl PythonSidecarError {
    /// Message of the error.
    pub fn message(&self) -> (s: String)
        ensures
            s@ == python_sidecar_error_text(*self),
    {
        match self {
            PythonSidecarError::StartupFailed(m) => {
                let mut s = String::from_str("Failed to start Python process: ");
                s.append(m.as_str());
                s
            },
            PythonSidecarError::CommunicationFailed(m) => {
                let mut s = String::from_str("Failed to communicate with Python process: ");
                s.append(m.as_str());
                s
            },
            PythonSidecarError::ProcessNotRunning => String::from_str("Python process not running"),
        }
    }
}

/// Messages of the first-generation sidecar protocol.
#[derive(Debug, Clone, PartialEq, Eq)]
pub enum IpcMessage {
    StartProcessing { audio_data: Vec<u8> },
    StopProcessing,
    TranscriptionResult { text: String, timestamp: u64 },
    Ready,
    Error { message: String },
}

/// Manager of the Python sidecar process.
#[derive(Debug)]
pub struct PythonSidecarManager;

impl PythonSidecarManager {
    /// A manager with no process.
    pub fn new() -> (m: Self) {
        PythonSidecarManager
    }
}

} // verus!
