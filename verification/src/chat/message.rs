//! Conversation messages handed to the chat endpoint.
use vstd::prelude::*;

use crate::json::JsonValue;

verus! {

/// The author of one message of the conversation.
#[derive(Debug, Clone, PartialEq, Eq)]
pub enum Role {
    User,
    Assistant,
    Function,
}

/// The wire name of a role, in snake case.
pub open spec fn spec_role_name(r: Role) -> Seq<char> {
    match r {
        Role::User => "user"@,
        Role::Assistant => "assistant"@,
        Role::Function => "function"@,
    }
}

impl Role {
    /// The role's wire name.
    pub fn to_string(&self) -> (r: String)
        ensures
            r@ == spec_role_name(*self),
    {
        match self {
            Role::User => String::from_str("user"),
            Role::Assistant => String::from_str("assistant"),
            Role::Function => String::from_str("function"),
        }
    }
}

/// One round of conversation: the request carries the list of messages,
/// the last one being the current request.
#[derive(Debug, Clone, PartialEq, Eq)]
pub struct Message {
    pub role: Role,
    pub content: String,
    pub name: Option<String>,
}

/// `j` is the JSON object that message `m` is sent as: `role` and
/// `content` always, and `name` only when it is set.
pub open spec fn is_message_json(j: JsonValue, m: Message) -> bool {
    &&& j matches JsonValue::Obj(fields)
    &&& fields@.len() == (if m.name is Some {
        3int
    } else {
        2int
    })
    &&& fields@[0].0@ == "role"@
    &&& fields@[0].1 matches JsonValue::Str(r) && r@ == spec_role_name(m.role)
    &&& fields@[1].0@ == "content"@
    &&& fields@[1].1 matches JsonValue::Str(c) && c@ == m.content@
    &&& m.name matches Some(n) ==> fields@[2].0@ == "name"@ && (fields@[2].1 matches
        JsonValue::Str(s) && s@ == n@)
}

impl Message {
    /// The message as the JSON object the request body carries.
    pub fn to_json(&self) -> (j: JsonValue)
        ensures
            is_message_json(j, *self),
    {
        let mut fields: Vec<(String, JsonValue)> = Vec::new();
        fields.push((String::from_str("role"), JsonValue::Str(self.role.to_string())));
        fields.push((String::from_str("content"), JsonValue::Str(self.content.clone())));
        match &self.name {
            Some(n) => {
                fields.push((String::from_str("name"), JsonValue::Str(n.clone())));
            },
            None => {},
        }
        JsonValue::Obj(fields)
    }
}

} // verus!
