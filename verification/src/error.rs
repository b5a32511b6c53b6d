//! The failures that the service reports.

use vstd::prelude::*;
use vstd::string::StringExecFns;

verus! {

/// A failure of the service.
#[derive(Debug)]
pub enum AppError {
    /// No input device could be acquired.
    NoAudioInputDevice,
    /// A session was asked for while one was running.
    RecordingAlreadyRunning,
    /// A session was to be stopped while none was running.
    RecordingNotRunning,
    /// The selected recognition engine, named here, has no credential.
    RecognitionEngineMissing(String),
    /// The selected translation engine, named here, has no credential.
    TranslationEngineMissing(String),
    /// The selected summary engine, named here, has no credential.
    SummaryEngineMissing(String),
    /// A request to a provider failed.
    Http(String),
    /// The store refused an operation.
    Database(String),
    /// Reading or writing failed.
    Io(String),
    /// A value could not be encoded or decoded.
    Serialization(String),
    /// Anything else.
    Other(String),
}

/// What the service returns where it can fail.
pub type AppResult<T> = Result<T, AppError>;

impl AppError {
    /// The text that describes the failure.
    pub open spec fn text(&self) -> Seq<char> {
        match self {
            AppError::NoAudioInputDevice => "Audio input device not available"@,
            AppError::RecordingAlreadyRunning => "Recording already in progress"@,
            AppError::RecordingNotRunning => "No active recording session"@,
            AppError::RecognitionEngineMissing(engine) => "Recognition engine not configured: "@
                + engine@,
            AppError::TranslationEngineMissing(engine) => "Translation engine not configured: "@
                + engine@,
            AppError::SummaryEngineMissing(engine) => "Summary engine not configured: "@
                + engine@,
            AppError::Http(cause) => "HTTP request failed: "@ + cause@,
            AppError::Database(cause) => "Database error: "@ + cause@,
            AppError::Io(cause) => "IO error: "@ + cause@,
            AppError::Serialization(cause) => "Serialization error: "@ + cause@,
            AppError::Other(cause) => cause@,
        }
    }

    /// Describes the failure in words.
    pub fn message(&self) -> (message: String)
        ensures
            message@ == self.text(),
    {
        match self {
            AppError::NoAudioInputDevice => "Audio input device not available".to_string(),
            AppError::RecordingAlreadyRunning => "Recording already in progress".to_string(),
            AppError::RecordingNotRunning => "No active recording session".to_string(),
            AppError::RecognitionEngineMissing(engine) => {
                "Recognition engine not configured: ".to_string().concat(engine.as_str())
            },
            AppError::TranslationEngineMissing(engine) => {
                "Translation engine not configured: ".to_string().concat(engine.as_str())
            },
            AppError::SummaryEngineMissing(engine) => {
                "Summary engine not configured: ".to_string().concat(engine.as_str())
            },
            AppError::Http(cause) => "HTTP request failed: ".to_string().concat(cause.as_str()),
            AppError::Database(cause) => "Database error: ".to_string().concat(cause.as_str()),
            AppError::Io(cause) => "IO error: ".to_string().concat(cause.as_str()),
            AppError::Serialization(cause) => {
                "Serialization error: ".to_string().concat(cause.as_str())
            },
            AppError::Other(cause) => cause.clone(),
        }
    }
}

} // verus!
