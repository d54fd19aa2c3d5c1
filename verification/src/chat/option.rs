//! Request options for the chat endpoint.
use vstd::prelude::*;

verus! {

/// The shape the model's answer text is asked to take.
#[derive(Debug, Clone, PartialEq, Eq)]
pub enum ResponseFormat {
    JsonObject,
    Text,
}

/// The wire name of a response format, in snake case.
pub open spec fn spec_response_format_name(f: ResponseFormat) -> Seq<char> {
    match f {
        ResponseFormat::JsonObject => "json_object"@,
        ResponseFormat::Text => "text"@,
    }
}

impl ResponseFormat {
    /// The format's wire name.
    pub fn to_string(&self) -> (r: String)
        ensures
            r@ == spec_response_format_name(*self),
    {
        match self {
            ResponseFormat::JsonObject => String::from_str("json_object"),
            ResponseFormat::Text => String::from_str("text"),
        }
    }
}

} // verus!
