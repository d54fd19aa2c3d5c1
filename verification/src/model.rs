//! Model names with an escape hatch: these variants carry any custom
//! model name alongside the predefined ones, so parsing a name never
//! fails.
use vstd::prelude::*;

use core::convert::Infallible;

use crate::json::str_eq;

verus! {

/// A chat model: a predefined one, or any custom name.
#[derive(Debug, Default, Clone, PartialEq, Eq)]
#[non_exhaustive]
pub enum ChatModel {
    #[default]
    ErnieBotTurbo,
    ErnieBot,
    Ernie40,
    Other(String),
}

/// The wire name of a chat model.
pub open spec fn spec_chat_model_name(m: ChatModel) -> Seq<char> {
    match m {
        ChatModel::ErnieBotTurbo => "eb-instant"@,
        ChatModel::ErnieBot => "completions"@,
        ChatModel::Ernie40 => "completions_pro"@,
        ChatModel::Other(name) => name@,
    }
}

impl ChatModel {
    /// The model's wire name.
    pub fn to_string(&self) -> (r: String)
        ensures
            r@ == spec_chat_model_name(*self),
    {
        match self {
            ChatModel::ErnieBotTurbo => String::from_str("eb-instant"),
            ChatModel::ErnieBot => String::from_str("completions"),
            ChatModel::Ernie40 => String::from_str("completions_pro"),
            ChatModel::Other(name) => name.clone(),
        }
    }

    /// The model denoted by `name`: predefined when the name matches,
    /// else the name kept as a custom model. The wire name round-trips.
    pub fn from_name(name: &str) -> (r: ChatModel)
        ensures
            spec_chat_model_name(r) == name@,
            r is Other ==> name@ != "eb-instant"@ && name@ != "completions"@ && name@
                != "completions_pro"@,
    {
        if str_eq(name, "eb-instant") {
            ChatModel::ErnieBotTurbo
        } else if str_eq(name, "completions") {
            ChatModel::ErnieBot
        } else if str_eq(name, "completions_pro") {
            ChatModel::Ernie40
        } else {
            ChatModel::Other(String::from_str(name))
        }
    }
}

impl core::str::FromStr for ChatModel {
    type Err = Infallible;

    fn from_str(s: &str) -> Result<ChatModel, Infallible> {
        Ok(ChatModel::from_name(s))
    }
}

/// An embedding model: a predefined one, or any custom name.
#[derive(Debug, Default, Clone, PartialEq, Eq)]
#[non_exhaustive]
pub enum EmbeddingModel {
    #[default]
    EmbeddingV1,
    BgeLargeZh,
    BgeLagreEn,
    Tao8k,
    Other(String),
}

/// The wire name of an embedding model.
pub open spec fn spec_embedding_model_name(m: EmbeddingModel) -> Seq<char> {
    match m {
        EmbeddingModel::EmbeddingV1 => "embedding-v1"@,
        EmbeddingModel::BgeLargeZh => "bge_large_zh"@,
        EmbeddingModel::BgeLagreEn => "bge_large_en"@,
        EmbeddingModel::Tao8k => "tao_8k"@,
        EmbeddingModel::Other(name) => name@,
    }
}

impl EmbeddingModel {
    /// The model's wire name.
    pub fn to_string(&self) -> (r: String)
        ensures
            r@ == spec_embedding_model_name(*self),
    {
        match self {
            EmbeddingModel::EmbeddingV1 => String::from_str("embedding-v1"),
            EmbeddingModel::BgeLargeZh => String::from_str("bge_large_zh"),
            EmbeddingModel::BgeLagreEn => String::from_str("bge_large_en"),
            EmbeddingModel::Tao8k => String::from_str("tao_8k"),
            EmbeddingModel::Other(name) => name.clone(),
        }
    }

    /// The model denoted by `name`: predefined when the name matches,
    /// else the name kept as a custom model. The wire name round-trips.
    pub fn from_name(name: &str) -> (r: EmbeddingModel)
        ensures
            spec_embedding_model_name(r) == name@,
            r is Other ==> name@ != "embedding-v1"@ && name@ != "bge_large_zh"@ && name@
                != "bge_large_en"@ && name@ != "tao_8k"@,
    {
        if str_eq(name, "embedding-v1") {
            EmbeddingModel::EmbeddingV1
        } else if str_eq(name, "bge_large_zh") {
            EmbeddingModel::BgeLargeZh
        } else if str_eq(name, "bge_large_en") {
            EmbeddingModel::BgeLagreEn
        } else if str_eq(name, "tao_8k") {
            EmbeddingModel::Tao8k
        } else {
            EmbeddingModel::Other(String::from_str(name))
        }
    }
}

impl core::str::FromStr for EmbeddingModel {
    type Err = Infallible;

    fn from_str(s: &str) -> Result<EmbeddingModel, Infallible> {
        Ok(EmbeddingModel::from_name(s))
    }
}

} // verus!
