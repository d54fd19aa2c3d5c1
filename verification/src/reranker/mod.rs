//! Toolset for the reranker models: model names and reply extraction.
mod model;
mod response;

pub use model::RerankerModel;
pub use response::{RerankData, RerankerResponse};
