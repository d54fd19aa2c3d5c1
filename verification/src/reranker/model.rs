//! The predefined reranker models and their wire names.
use vstd::prelude::*;

use crate::errors::UnknownModelError;
use crate::json::str_eq;

verus! {

/// A predefined reranker model of the platform.
#[derive(Debug, Default, Clone, PartialEq, Eq)]
#[non_exhaustive]
pub enum RerankerModel {
    #[default]
    BceRerankerBaseV1,
}

/// The wire name of a reranker model.
pub open spec fn spec_reranker_model_name(m: RerankerModel) -> Seq<char> {
    match m {
        RerankerModel::BceRerankerBaseV1 => "bce_reranker_base"@,
    }
}

impl RerankerModel {
    /// The model's wire name, as the request URL carries it.
    pub fn to_string(&self) -> (r: String)
        ensures
            r@ == spec_reranker_model_name(*self),
    {
        match self {
            RerankerModel::BceRerankerBaseV1 => String::from_str("bce_reranker_base"),
        }
    }

    /// The model whose wire name is `name`, if any.
    pub fn from_name(name: &str) -> (r: Option<RerankerModel>)
        ensures
            match r {
                Some(m) => spec_reranker_model_name(m) == name@,
                None => forall|m: RerankerModel| spec_reranker_model_name(m) != name@,
            },
    {
        if str_eq(name, "bce_reranker_base") {
            Some(RerankerModel::BceRerankerBaseV1)
        } else {
            None
        }
    }
}

impl core::str::FromStr for RerankerModel {
    type Err = UnknownModelError;

    fn from_str(s: &str) -> Result<RerankerModel, UnknownModelError> {
        match RerankerModel::from_name(s) {
            Some(m) => Ok(m),
            None => Err(UnknownModelError),
        }
    }
}

} // verus!
