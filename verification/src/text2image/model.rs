//! The predefined text-to-image models and their wire names.
use vstd::prelude::*;

use crate::errors::UnknownModelError;
use crate::json::str_eq;

verus! {

/// A predefined text-to-image model of the platform.
#[derive(Debug, Default, Clone, PartialEq, Eq)]
#[non_exhaustive]
pub enum Text2ImageModel {
    #[default]
    StableDiffusionXL,
}

/// The wire name of a text-to-image model.
pub open spec fn spec_text2image_model_name(m: Text2ImageModel) -> Seq<char> {
    match m {
        Text2ImageModel::StableDiffusionXL => "sd_xl"@,
    }
}

impl Text2ImageModel {
    /// The model's wire name, as the request URL carries it.
    pub fn to_string(&self) -> (r: String)
        ensures
            r@ == spec_text2image_model_name(*self),
    {
        match self {
            Text2ImageModel::StableDiffusionXL => String::from_str("sd_xl"),
        }
    }

    /// The model whose wire name is `name`, if any.
    pub fn from_name(name: &str) -> (r: Option<Text2ImageModel>)
        ensures
            match r {
                Some(m) => spec_text2image_model_name(m) == name@,
                None => forall|m: Text2ImageModel| spec_text2image_model_name(m) != name@,
            },
    {
        if str_eq(name, "sd_xl") {
            Some(Text2ImageModel::StableDiffusionXL)
        } else {
            None
        }
    }
}

impl core::str::FromStr for Text2ImageModel {
    type Err = UnknownModelError;

    fn from_str(s: &str) -> Result<Text2ImageModel, UnknownModelError> {
        match Text2ImageModel::from_name(s) {
            Some(m) => Ok(m),
            None => Err(UnknownModelError),
        }
    }
}

} // verus!
