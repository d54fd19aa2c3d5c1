//! Toolset for the text-to-image models: model names, request options,
//! and reply extraction.
mod model;
mod option;
mod response;

pub use model::Text2ImageModel;
pub use option::{SamplerIndex, Size, Style};
pub use response::Text2ImageResponse;
