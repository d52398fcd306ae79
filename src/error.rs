//! The ways in which the transfer engine fails.
use vstd::prelude::*;

verus! {

#[derive(Debug, Clone, Copy, PartialEq, Eq, Structural)]
pub enum EngineError {
    /// The credential was rejected, or the service reported a failed verification.
    Auth,
    /// A size text from the service does not follow the size grammar.
    ConfigParse,
    /// A response arrived with a non-success HTTP status.
    Server { status: u16 },
    /// A response body could not be read as the expected structure.
    Parse,
    /// A page lacks the markers that the resolver looks for.
    Scrape,
    /// A link could not be decoded into UTF-8 text.
    Decode,
    /// The service answered in a form that the engine does not handle.
    UnexpectedResponse,
    /// A link is neither an album nor a single-file reference.
    UnsupportedLink,
    /// A configuration key that does not exist.
    UnknownKey,
    /// A configuration value that does not parse for its key.
    InvalidValue,
}

} // verus!
