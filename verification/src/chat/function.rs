//! Structured function calling: the call a model answers with, the
//! conversation examples that teach it, and the choice of a forced tool.
use vstd::prelude::*;

use super::message::Role;
use crate::json::JsonValue;

verus! {

/// The function call a model's reply carries: the chosen function's name,
/// its arguments as one JSON-formatted string, and the model's optional
/// thinking process.
#[derive(Debug, Clone, PartialEq, Eq, Default)]
pub struct FunctionCall {
    pub name: String,
    pub arguments: String,
    pub thoughts: Option<String>,
}

/// One message of an example round of a function-calling conversation.
#[derive(Debug, Clone, PartialEq, Eq)]
pub struct Example {
    pub role: Role,
    pub content: Option<String>,
    pub name: Option<String>,
    pub function_call: Option<FunctionCall>,
}

/// Prompt the model to select one specific function.
#[derive(Debug, PartialEq, Eq)]
pub struct ToolChoice {
    pub tool_type: String,
    pub function: JsonValue,
}

impl ToolChoice {
    /// The choice of the function named `name`: the type tag is always
    /// `function`, and the function object carries the name alone.
    pub fn from_function_name(name: String) -> (r: ToolChoice)
        ensures
            r.tool_type@ == "function"@,
            r.function matches JsonValue::Obj(fields) && fields@.len() == 1 && fields@[0].0@
                == "name"@ && (fields@[0].1 matches JsonValue::Str(s) && s@ == name@),
    {
        let mut fields: Vec<(String, JsonValue)> = Vec::new();
        fields.push((String::from_str("name"), JsonValue::Str(name)));
        ToolChoice { tool_type: String::from_str("function"), function: JsonValue::Obj(fields) }
    }
}

/// `j` is the JSON object that a reply's `function_call` field decodes to
/// `c`: a `name` string, an `arguments` string, and optionally a
/// `thoughts` string, other fields ignored.
/// `j` has the shape a `function_call` field must have to decode: `name`
/// and `arguments` strings, and `thoughts` absent, null or a string.
pub open spec fn function_call_decodable(j: JsonValue) -> bool {
    &&& crate::json::spec_get(j, "name"@) matches Some(JsonValue::Str(_))
    &&& crate::json::spec_get(j, "arguments"@) matches Some(JsonValue::Str(_))
    &&& match crate::json::spec_get(j, "thoughts"@) {
        Some(JsonValue::Str(_)) => true,
        Some(JsonValue::Null) => true,
        None => true,
        _ => false,
    }
}

/// `j` is the JSON object that a reply's `function_call` field decodes to
/// `c`: a `name` string, an `arguments` string, and optionally a
/// `thoughts` string, other fields ignored.
pub open spec fn is_function_call_json(j: JsonValue, c: FunctionCall) -> bool {
    &&& crate::json::spec_get(j, "name"@) matches Some(JsonValue::Str(n)) && n@ == c.name@
    &&& crate::json::spec_get(j, "arguments"@) matches Some(JsonValue::Str(a)) && a@
        == c.arguments@
    &&& match crate::json::spec_get(j, "thoughts"@) {
        Some(JsonValue::Str(t)) => c.thoughts matches Some(ct) && ct@ == t@,
        Some(JsonValue::Null) => c.thoughts is None,
        None => c.thoughts is None,
        _ => false,
    }
}

} // verus!
