//! The error taxonomy shared by every call path of the crate.
use vstd::prelude::*;

verus! {

/// Every failure the library reports.
///
/// Each variant carries a human-readable description; `message` renders the
/// variant together with it.
#[derive(Debug, Clone, PartialEq, Eq)]
pub enum ErnieError {
    GetResponseError(String),
    InvokeError(String),
    StreamError(String),
    GetAccessTokenError(String),
    GenerateBodyError(String),
    RemoteAPIError(String),
    BuildUrlError(String),
}

/// Failure of parsing a model name that no predefined model carries.
#[derive(Debug, Clone, PartialEq, Eq)]
pub struct UnknownModelError;

/// The rendering of an error: its variant's name, a colon, its description.
pub open spec fn spec_message(e: ErnieError) -> Seq<char> {
    match e {
        ErnieError::GetResponseError(m) => "GetResponseError: "@ + m@,
        ErnieError::InvokeError(m) => "InvokeError: "@ + m@,
        ErnieError::StreamError(m) => "StreamError: "@ + m@,
        ErnieError::GetAccessTokenError(m) => "GetAccessTokenError: "@ + m@,
        ErnieError::GenerateBodyError(m) => "GenerateBodyError: "@ + m@,
        ErnieError::RemoteAPIError(m) => "RemoteAPIError: "@ + m@,
        ErnieError::BuildUrlError(m) => "BuildUrlError: "@ + m@,
    }
}

impl ErnieError {
    /// The error as one line of text.
    pub fn message(&self) -> (r: String)
        ensures
            r@ == spec_message(*self),
    {
        match self {
            ErnieError::GetResponseError(m) => String::from_str("GetResponseError: ").concat(
                m.as_str(),
            ),
            ErnieError::InvokeError(m) => String::from_str("InvokeError: ").concat(m.as_str()),
            ErnieError::StreamError(m) => String::from_str("StreamError: ").concat(m.as_str()),
            ErnieError::GetAccessTokenError(m) => String::from_str(
                "GetAccessTokenError: ",
            ).concat(m.as_str()),
            ErnieError::GenerateBodyError(m) => String::from_str("GenerateBodyError: ").concat(
                m.as_str(),
            ),
            ErnieError::RemoteAPIError(m) => String::from_str("RemoteAPIError: ").concat(
                m.as_str(),
            ),
            ErnieError::BuildUrlError(m) => String::from_str("BuildUrlError: ").concat(m.as_str()),
        }
    }
}

} // verus!
