//! Errors of the streaming system.

use vstd::prelude::*;
use vstd::string::*;

verus! {

/// Result type for streaming operations.
pub type StreamResult<T> = Result<T, StreamError>;

/// Errors of the streaming system: hardware, network, permission and
/// resource failures, each with a message.
#[derive(Debug)]
pub enum StreamError {
    /// Camera or screen capture hardware failures.
    Capture(String),
    /// Camera or screen access permission denied.
    Permission(String),
    /// Video encoding failures.
    Encoding(String),
    /// Video decoding failures.
    Decoding(String),
    /// Hardware acceleration failures.
    HardwareAcceleration(String),
    /// Stream transmission and connectivity issues.
    Network(String),
    /// Insufficient CPU, memory, or bandwidth.
    Resource(String),
    /// Stream session not found.
    SessionNotFound(String),
    /// Viewer management errors.
    Viewer(String),
    /// Recording errors.
    Recording(String),
    /// Configuration errors.
    Configuration(String),
    /// Device not found or unavailable.
    DeviceNotFound(String),
    /// Unsupported operation or feature.
    Unsupported(String),
    /// Invalid state for operation.
    InvalidState(String),
    /// Initialization error.
    Initialization(String),
    /// Timeout during operation.
    Timeout(String),
    /// I/O errors, by their message.
    Io(String),
    /// Generic internal error.
    Internal(String),
}

impl StreamError {
    /// Camera or screen capture hardware failures, with the given text.
    pub fn capture(msg: &str) -> (r: Self)
        ensures
            r matches StreamError::Capture(m) && m@ == msg@,
    {
        StreamError::Capture(String::from_str(msg))
    }

    /// Camera or screen access permission denied, with the given text.
    pub fn permission(msg: &str) -> (r: Self)
        ensures
            r matches StreamError::Permission(m) && m@ == msg@,
    {
        StreamError::Permission(String::from_str(msg))
    }

    /// Video encoding failures, with the given text.
    pub fn encoding(msg: &str) -> (r: Self)
        ensures
            r matches StreamError::Encoding(m) && m@ == msg@,
    {
        StreamError::Encoding(String::from_str(msg))
    }

    /// Video decoding failures, with the given text.
    pub fn decoding(msg: &str) -> (r: Self)
        ensures
            r matches StreamError::Decoding(m) && m@ == msg@,
    {
        StreamError::Decoding(String::from_str(msg))
    }

    /// Stream transmission and connectivity issues, with the given text.
    pub fn network(msg: &str) -> (r: Self)
        ensures
            r matches StreamError::Network(m) && m@ == msg@,
    {
        StreamError::Network(String::from_str(msg))
    }

    /// Insufficient CPU, memory, or bandwidth, with the given text.
    pub fn resource(msg: &str) -> (r: Self)
        ensures
            r matches StreamError::Resource(m) && m@ == msg@,
    {
        StreamError::Resource(String::from_str(msg))
    }

    /// Stream session not found, with the given text.
    pub fn session_not_found(session: &str) -> (r: Self)
        ensures
            r matches StreamError::SessionNotFound(m) && m@ == session@,
    {
        StreamError::SessionNotFound(String::from_str(session))
    }

    /// Viewer management errors, with the given text.
    pub fn viewer(msg: &str) -> (r: Self)
        ensures
            r matches StreamError::Viewer(m) && m@ == msg@,
    {
        StreamError::Viewer(String::from_str(msg))
    }

    /// Recording errors, with the given text.
    pub fn recording(msg: &str) -> (r: Self)
        ensures
            r matches StreamError::Recording(m) && m@ == msg@,
    {
        StreamError::Recording(String::from_str(msg))
    }

    /// Configuration errors, with the given text.
    pub fn configuration(msg: &str) -> (r: Self)
        ensures
            r matches StreamError::Configuration(m) && m@ == msg@,
    {
        StreamError::Configuration(String::from_str(msg))
    }

    /// Device not found or unavailable, with the given text.
    pub fn device_not_found(device: &str) -> (r: Self)
        ensures
            r matches StreamError::DeviceNotFound(m) && m@ == device@,
    {
        StreamError::DeviceNotFound(String::from_str(device))
    }

    /// Unsupported operation or feature, with the given text.
    pub fn unsupported(msg: &str) -> (r: Self)
        ensures
            r matches StreamError::Unsupported(m) && m@ == msg@,
    {
        StreamError::Unsupported(String::from_str(msg))
    }

    /// Invalid state for operation, with the given text.
    pub fn invalid_state(msg: &str) -> (r: Self)
        ensures
            r matches StreamError::InvalidState(m) && m@ == msg@,
    {
        StreamError::InvalidState(String::from_str(msg))
    }

    /// Timeout during operation, with the given text.
    pub fn timeout(msg: &str) -> (r: Self)
        ensures
            r matches StreamError::Timeout(m) && m@ == msg@,
    {
        StreamError::Timeout(String::from_str(msg))
    }

    /// Generic internal error, with the given text.
    pub fn internal(msg: &str) -> (r: Self)
        ensures
            r matches StreamError::Internal(m) && m@ == msg@,
    {
        StreamError::Internal(String::from_str(msg))
    }

    /// Initialization error, with the given text.
    pub fn initialization(msg: &str) -> (r: Self)
        ensures
            r matches StreamError::Initialization(m) && m@ == msg@,
    {
        StreamError::Initialization(String::from_str(msg))
    }
}

} // verus!
