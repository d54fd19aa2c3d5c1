//! Toolset for the chat models: messages, model names, chat options, and
//! the streaming response pipeline.
mod function;
mod message;
mod model;
mod option;
pub mod response;

pub use function::{Example, FunctionCall, ToolChoice};
pub use message::{Message, Role};
pub use model::ChatModel;
pub use option::ResponseFormat;
pub use response::{Response, Responses, SourceEvent, StepAction, StreamClose, pump, stream_step};
