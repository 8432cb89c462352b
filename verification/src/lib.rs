//! Clipboard companion core: change detection, content-addressed staging,
//! and rotating path aliases, with machine-checked contracts.

use vstd::prelude::*;
use vstd::string::*;

pub mod clipboard;
pub mod file_manager;
pub mod hashing;
pub mod hex;
pub mod mcp;
pub mod paths;

verus! {

/// Port the protocol server listens on unless told otherwise.
pub const DEFAULT_PORT: u16 = 3830;

/// Host the protocol server binds to unless told otherwise.
pub const DEFAULT_HOST: &'static str = "127.0.0.1";

/// Name of the staging directory below the system's temporary directory.
pub const STAGING_DIR_NAME: &'static str = "claude_utils";

/// Largest payload, in bytes, that is kept inline rather than staged.
pub const MAX_INLINE_SIZE: usize = 65536;

/// Minutes between two eviction cycles, and the default maximum artifact age.
pub const CLEANUP_INTERVAL_MINS: u64 = 15;

/// What can go wrong, each with a message for the caller.
#[derive(Debug)]
pub enum ClaudeUtilsError {
    Clipboard(String),
    FileOperation(String),
    ImageProcessing(String),
    Serialization(String),
    Authentication(String),
    McpProtocol(String),
    Server(String),
}

impl ClaudeUtilsError {
    /// The message carried by the error, whatever its variant.
    pub open spec fn message(&self) -> Seq<char> {
        match self {
            ClaudeUtilsError::Clipboard(m) => m@,
            ClaudeUtilsError::FileOperation(m) => m@,
            ClaudeUtilsError::ImageProcessing(m) => m@,
            ClaudeUtilsError::Serialization(m) => m@,
            ClaudeUtilsError::Authentication(m) => m@,
            ClaudeUtilsError::McpProtocol(m) => m@,
            ClaudeUtilsError::Server(m) => m@,
        }
    }

    /// The heading each variant is reported under.
    pub open spec fn heading(&self) -> Seq<char> {
        match self {
            ClaudeUtilsError::Clipboard(_) => "Clipboard error: "@,
            ClaudeUtilsError::FileOperation(_) => "File operation error: "@,
            ClaudeUtilsError::ImageProcessing(_) => "Image processing error: "@,
            ClaudeUtilsError::Serialization(_) => "Serialization error: "@,
            ClaudeUtilsError::Authentication(_) => "Authentication error: "@,
            ClaudeUtilsError::McpProtocol(_) => "MCP protocol error: "@,
            ClaudeUtilsError::Server(_) => "Server error: "@,
        }
    }

    /// The error as one line of text: the heading followed by the message.
    pub fn describe(&self) -> (text: String)
        ensures
            text@ == self.heading() + self.message(),
    {
        let (heading, message) = match self {
            ClaudeUtilsError::Clipboard(m) => ("Clipboard error: ", m),
            ClaudeUtilsError::FileOperation(m) => ("File operation error: ", m),
            ClaudeUtilsError::ImageProcessing(m) => ("Image processing error: ", m),
            ClaudeUtilsError::Serialization(m) => ("Serialization error: ", m),
            ClaudeUtilsError::Authentication(m) => ("Authentication error: ", m),
            ClaudeUtilsError::McpProtocol(m) => ("MCP protocol error: ", m),
            ClaudeUtilsError::Server(m) => ("Server error: ", m),
        };
        let mut text = String::from_str(heading);
        text.append(message.as_str());
        text
    }
}

} // verus!
