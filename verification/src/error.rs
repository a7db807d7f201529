//! Error taxonomy of the publish-orchestration engine.

use vstd::prelude::*;

verus! {

/// Errors reported by the library.
///
/// Parse errors cover malformed dates, times and key-value scheduling
/// arguments; validation errors cover captions that do not fit the canvas and
/// episode numbers that cannot be derived; transport errors carry a protocol
/// failure reported by the caller's network layer; `NotImplemented` is
/// reserved for unfinished commands. Each carrier names the offending field
/// and value so a failure can be reproduced.
#[derive(Debug, Clone)]
pub enum Error {
    Parse { field: String, value: String },
    Validation { field: String, value: String },
    Transport { detail: String },
    NotImplemented,
}

impl Error {
    /// The rendered message, as a sequence of characters.
    pub open spec fn message_seq(&self) -> Seq<char> {
        match self {
            Error::Parse { field, value } => "parse error: "@ + field@ + " = "@ + value@,
            Error::Validation { field, value } => "validation error: "@ + field@ + " = "@
                + value@,
            Error::Transport { detail } => "transport error: "@ + detail@,
            Error::NotImplemented => "not implemented"@,
        }
    }

    /// Human-readable description of the error.
    pub fn message(&self) -> (r: String)
        ensures
            r@ == self.message_seq(),
    {
        match self {
            Error::Parse { field, value } => {
                let mut s = String::from_str("parse error: ");
                s.append(field.as_str());
                s.append(" = ");
                s.append(value.as_str());
                s
            },
            Error::Validation { field, value } => {
                let mut s = String::from_str("validation error: ");
                s.append(field.as_str());
                s.append(" = ");
                s.append(value.as_str());
                s
            },
            Error::Transport { detail } => {
                let mut s = String::from_str("transport error: ");
                s.append(detail.as_str());
                s
            },
            Error::NotImplemented => String::from_str("not implemented"),
        }
    }
}

} // verus!
