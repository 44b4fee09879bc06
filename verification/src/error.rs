//! Error types of the compositor and of its configuration.
use vstd::prelude::*;

verus! {

/// An I/O error from the standard library, carried opaquely.
#[verifier::external_type_specification]
#[verifier::external_body]
pub struct ExIoError(std::io::Error);

/// Top-level error type for the compositor.
#[derive(Debug)]
pub enum CompositorError {
    /// Wayland display creation failed.
    DisplayCreation,
    /// Backend initialization failed.
    Backend(String),
    /// Renderer initialization failed.
    Renderer(String),
    /// Configuration parsing failed.
    Config(String),
    /// A Wayland protocol error was received.
    Protocol(String),
    /// An invalid operation was attempted.
    InvalidOperation(String),
    /// Resource allocation failed (OOM).
    Allocation(String),
    /// I/O error.
    Io(std::io::Error),
    /// Unknown error.
    Unknown(String),
}

/// Configuration-specific errors.
#[derive(Debug)]
pub enum ConfigError {
    /// XML parsing failed.
    XmlParse {
        /// Line number where the error occurred.
        line: usize,
        /// Error message.
        msg: String,
    },
    /// Missing required configuration key.
    MissingKey(String),
    /// Invalid configuration value.
    InvalidValue {
        /// The configuration key.
        key: String,
        /// The invalid value.
        value: String,
    },
    /// File not found.
    FileNotFound(String),
    /// Theme error.
    Theme(String),
}

} // verus!
