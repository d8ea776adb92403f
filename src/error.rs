use vstd::prelude::*;
use crate::json::Json;

verus! {

/// Every way a traversal can fail. Each variant carries only the payload that
/// helps to diagnose its own kind of failure.
#[derive(Debug)]
pub enum Error {
    /// Reading or writing failed; the text describes it.
    Io(String),
    /// Setting up the command line or the logging failed.
    Cli(String),
    /// The HTTP client failed: transport, TLS, status or body decoding.
    Client(String),
    /// The link field was missing (`None`), or present but unusable, with its
    /// raw bytes (`Some`).
    InvalidLink(Option<Vec<u8>>),
    /// The body decoded to something other than a sequence of items.
    InvalidBody(Json),
}

} // verus!
