//! Toolset for the embedding models: model names and reply extraction.
mod model;
mod response;

pub use model::EmbeddingModel;
pub use response::EmbeddingResponse;
