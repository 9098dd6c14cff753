//! The command-line interface: global options and subcommands.

use vstd::prelude::*;

verus! {

/// CLI for Camoufox browser automation.
#[derive(Debug, Clone, PartialEq, Eq)]
pub struct Cli {
    /// Output as JSON instead of human-readable text.
    pub json: bool,
    /// Path to the daemon Unix socket.
    pub socket: Option<String>,
    pub command: Command,
}

/// The subcommands.
#[derive(Debug, Clone, PartialEq, Eq)]
pub enum Command {
    /// Start the daemon process; `foreground` keeps it attached.
    Serve { foreground: bool },
    /// Launch a new browser instance, headed or not, from an executable.
    Launch { headed: bool, executable: Option<String> },
    /// List all running browser instances.
    List,
    /// Stop a browser instance (e.g., 00000001).
    Stop { instance_id: String },
    /// Create a new page in a browser instance.
    NewPage { instance_id: String },
    /// Navigate a page (e.g., p1) to a URL.
    Navigate { instance_id: String, page_id: String, url: String },
    /// Evaluate JavaScript on a page.
    Evaluate { instance_id: String, page_id: String, expression: String },
    /// Take a screenshot of a page: output file path, image format (png or
    /// jpeg) and JPEG quality (0-100).
    Screenshot {
        instance_id: String,
        page_id: String,
        output: Option<String>,
        format: String,
        quality: Option<u32>,
    },
    /// Shut down the daemon and all browser instances.
    Shutdown,
    /// Ping the daemon.
    Ping,
}

} // verus!
