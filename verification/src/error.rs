//! The errors of the library.

use vstd::prelude::*;
use crate::text::{decimal, decimal_string};
use vstd::std_specs::convert::FromSpecImpl;
use vstd::string::to_string_from_display_ensures;

verus! {

/// Errors returned by [`crate::Client`] and [`crate::ClientBuilder`].
#[derive(Debug)]
pub enum Error {
    /// One or more required credentials were empty.
    MissingCredentials,
    /// The payload could not be serialized to JSON.
    Serialize(serde_json::Error),
    /// An HTTP transport or connection error occurred.
    Http(reqwest::Error),
    /// The API returned a non-2xx status code.
    ApiError {
        /// HTTP status code returned by the server.
        status: u16,
        /// Response body (may be empty).
        body: String,
    },
}

impl Error {
    /// The message of the error, as its `Display` text reads.
    pub fn message(&self) -> (s: String)
        ensures
            match self {
                Error::MissingCredentials => s@
                    == "loopengine: project_key, project_secret, and project_id are required"@,
                Error::Serialize(e) => exists|detail: String|
                    to_string_from_display_ensures::<serde_json::Error>(e, detail) && s@
                        == "loopengine: serialize payload: "@ + detail@,
                Error::Http(e) => exists|detail: String|
                    to_string_from_display_ensures::<reqwest::Error>(e, detail) && s@
                        == "loopengine: request: "@ + detail@,
                Error::ApiError { status, body } => s@ == "loopengine: "@ + decimal(*status as nat)
                    + " "@ + body@,
            },
    {
        match self {
            Error::MissingCredentials => {
                "loopengine: project_key, project_secret, and project_id are required".to_owned()
            },
            Error::Serialize(e) => {
                let mut s = "loopengine: serialize payload: ".to_owned();
                let detail = e.to_string();
                s.append(detail.as_str());
                assert(to_string_from_display_ensures::<serde_json::Error>(e, detail));
                s
            },
            Error::Http(e) => {
                let mut s = "loopengine: request: ".to_owned();
                let detail = e.to_string();
                s.append(detail.as_str());
                assert(to_string_from_display_ensures::<reqwest::Error>(e, detail));
                s
            },
            Error::ApiError { status, body } => {
                let mut s = "loopengine: ".to_owned();
                let code = decimal_string(*status as u64);
                s.append(code.as_str());
                s.append(" ");
                s.append(body.as_str());
                s
            },
        }
    }
}

impl From<serde_json::Error> for Error {
    fn from(e: serde_json::Error) -> (r: Error) {
        Error::Serialize(e)
    }
}

impl FromSpecImpl<serde_json::Error> for Error {
    open spec fn obeys_from_spec() -> bool {
        true
    }

    open spec fn from_spec(e: serde_json::Error) -> Error {
        Error::Serialize(e)
    }
}

impl From<reqwest::Error> for Error {
    fn from(e: reqwest::Error) -> (r: Error) {
        Error::Http(e)
    }
}

impl FromSpecImpl<reqwest::Error> for Error {
    open spec fn obeys_from_spec() -> bool {
        true
    }

    open spec fn from_spec(e: reqwest::Error) -> Error {
        Error::Http(e)
    }
}

} // verus!
