//! The error type shared by the whole library.

use vstd::prelude::*;

verus! {

/// Every failure the library reports, each variant carrying a message.
#[derive(Debug, Clone, PartialEq, Eq)]
pub enum ApplicationError {
    FileError(String),
    MissingId(String),
    CouldNotFind(String),
    ConfigurationError(String),
    ServerStartUpError(String),
    RoutingError(String),
}

impl ApplicationError {
    /// A human-readable rendering of the error, one line per variant.
    pub fn to_message(&self) -> (r: String)
        ensures
            r@ == self.message_spec(),
    {
        match self {
            ApplicationError::FileError(m) => concat_label("File error: ", m),
            ApplicationError::MissingId(m) => concat_label("Missing id: ", m),
            ApplicationError::CouldNotFind(m) => concat_label("Could not find: ", m),
            ApplicationError::ConfigurationError(m) => concat_label("Configuration error: ", m),
            ApplicationError::ServerStartUpError(m) => concat_label("Server start up error: ", m),
            ApplicationError::RoutingError(m) => concat_label("Routing error: ", m),
        }
    }

    /// What `to_message` returns, as a sequence of characters.
    pub open spec fn message_spec(&self) -> Seq<char> {
        match self {
            ApplicationError::FileError(m) => "File error: "@ + m@,
            ApplicationError::MissingId(m) => "Missing id: "@ + m@,
            ApplicationError::CouldNotFind(m) => "Could not find: "@ + m@,
            ApplicationError::ConfigurationError(m) => "Configuration error: "@ + m@,
            ApplicationError::ServerStartUpError(m) => "Server start up error: "@ + m@,
            ApplicationError::RoutingError(m) => "Routing error: "@ + m@,
        }
    }
}

/// Prefix a message with a fixed label.
fn concat_label(label: &str, message: &String) -> (r: String)
    ensures
        r@ == label@ + message@,
{
    let mut out = label.to_owned();
    out.append(message.as_str());
    out
}

} // verus!
