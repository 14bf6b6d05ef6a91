//! Error taxonomy of the client core.

use vstd::prelude::*;

verus! {

/// What can go wrong around a send: build or transport failures carry a
/// message; cancellation is user-initiated and is not a failure.
#[derive(Debug)]
pub enum AppError {
    Http(String),
    Io(String),
    Json(String),
    Timeout,
    Cancelled,
    Other(String),
}

impl AppError {
    /// The user-visible text of this error.
    pub open spec fn message_spec(&self) -> Seq<char> {
        match self {
            AppError::Http(m) => "HTTP error: "@ + m@,
            AppError::Io(m) => "IO error: "@ + m@,
            AppError::Json(m) => "JSON error: "@ + m@,
            AppError::Timeout => "Request timed out"@,
            AppError::Cancelled => "Request cancelled"@,
            AppError::Other(m) => m@,
        }
    }

    /// Render the user-visible text of this error.
    pub fn message(&self) -> (r: String)
        ensures
            r@ == self.message_spec(),
    {
        match self {
            AppError::Http(m) => {
                let mut out = "HTTP error: ".to_owned();
                out.append(m.as_str());
                out
            },
            AppError::Io(m) => {
                let mut out = "IO error: ".to_owned();
                out.append(m.as_str());
                out
            },
            AppError::Json(m) => {
                let mut out = "JSON error: ".to_owned();
                out.append(m.as_str());
                out
            },
            AppError::Timeout => "Request timed out".to_owned(),
            AppError::Cancelled => "Request cancelled".to_owned(),
            AppError::Other(m) => m.clone(),
        }
    }
}

} // verus!
