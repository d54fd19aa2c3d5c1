//! The predefined embedding models and their wire names.
use vstd::prelude::*;

use crate::errors::UnknownModelError;
use crate::json::str_eq;

verus! {

/// A predefined embedding model of the platform.
#[derive(Debug, Default, Clone, PartialEq, Eq)]
#[non_exhaustive]
pub enum EmbeddingModel {
    #[default]
    EmbeddingV1,
    BgeLargeZh,
    BgeLagreEn,
    Tao8k,
}

/// The wire name of an embedding model.
pub open spec fn spec_embedding_model_name(m: EmbeddingModel) -> Seq<char> {
    match m {
        EmbeddingModel::EmbeddingV1 => "embedding-v1"@,
        EmbeddingModel::BgeLargeZh => "bge_large_zh"@,
        EmbeddingModel::BgeLagreEn => "bge_large_en"@,
        EmbeddingModel::Tao8k => "tao_8k"@,
    }
}

impl EmbeddingModel {
    /// The model's wire name, as the request URL carries it.
    pub fn to_string(&self) -> (r: String)
        ensures
            r@ == spec_embedding_model_name(*self),
    {
        match self {
            EmbeddingModel::EmbeddingV1 => String::from_str("embedding-v1"),
            EmbeddingModel::BgeLargeZh => String::from_str("bge_large_zh"),
            EmbeddingModel::BgeLagreEn => String::from_str("bge_large_en"),
            EmbeddingModel::Tao8k => String::from_str("tao_8k"),
        }
    }

    /// The model whose wire name is `name`, if any.
    pub fn from_name(name: &str) -> (r: Option<EmbeddingModel>)
        ensures
            match r {
                Some(m) => spec_embedding_model_name(m) == name@,
                None => forall|m: EmbeddingModel| spec_embedding_model_name(m) != name@,
            },
    {
        if str_eq(name, "embedding-v1") {
            Some(EmbeddingModel::EmbeddingV1)
        } else if str_eq(name, "bge_large_zh") {
            Some(EmbeddingModel::BgeLargeZh)
        } else if str_eq(name, "bge_large_en") {
            Some(EmbeddingModel::BgeLagreEn)
        } else if str_eq(name, "tao_8k") {
            Some(EmbeddingModel::Tao8k)
        } else {
            None
        }
    }
}

impl core::str::FromStr for EmbeddingModel {
    type Err = UnknownModelError;

    fn from_str(s: &str) -> Result<EmbeddingModel, UnknownModelError> {
        match EmbeddingModel::from_name(s) {
            Some(m) => Ok(m),
            None => Err(UnknownModelError),
        }
    }
}

} // verus!
