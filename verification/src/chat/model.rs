//! The predefined chat models and their wire names.
use vstd::prelude::*;

use crate::errors::UnknownModelError;
use crate::json::str_eq;

verus! {

/// A predefined chat model of the platform.
#[derive(Debug, Default, Clone, PartialEq, Eq)]
#[non_exhaustive]
pub enum ChatModel {
    #[default]
    ErnieBotTurbo,
    ErnieBot,
    Ernie40,
}

/// The wire name of a chat model.
pub open spec fn spec_chat_model_name(m: ChatModel) -> Seq<char> {
    match m {
        ChatModel::ErnieBotTurbo => "eb-instant"@,
        ChatModel::ErnieBot => "completions"@,
        ChatModel::Ernie40 => "completions_pro"@,
    }
}

impl ChatModel {
    /// The model's wire name, as the request URL carries it.
    pub fn to_string(&self) -> (r: String)
        ensures
            r@ == spec_chat_model_name(*self),
    {
        match self {
            ChatModel::ErnieBotTurbo => String::from_str("eb-instant"),
            ChatModel::ErnieBot => String::from_str("completions"),
            ChatModel::Ernie40 => String::from_str("completions_pro"),
        }
    }

    /// The model whose wire name is `name`, if any.
    pub fn from_name(name: &str) -> (r: Option<ChatModel>)
        ensures
            match r {
                Some(m) => spec_chat_model_name(m) == name@,
                None => forall|m: ChatModel| spec_chat_model_name(m) != name@,
            },
    {
        if str_eq(name, "eb-instant") {
            Some(ChatModel::ErnieBotTurbo)
        } else if str_eq(name, "completions") {
            Some(ChatModel::ErnieBot)
        } else if str_eq(name, "completions_pro") {
            Some(ChatModel::Ernie40)
        } else {
            None
        }
    }
}

impl core::str::FromStr for ChatModel {
    type Err = UnknownModelError;

    fn from_str(s: &str) -> Result<ChatModel, UnknownModelError> {
        match ChatModel::from_name(s) {
            Some(m) => Ok(m),
            None => Err(UnknownModelError),
        }
    }
}

} // verus!
