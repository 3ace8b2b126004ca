//! Models' calls: their options, their tool-call steps and their responses.
pub mod chat;
pub mod default_session;
pub mod error;
pub mod instructor;
pub mod models;
pub mod ollama;
pub mod openai;
pub mod options;
pub mod responses;
pub mod step_buffer;

pub use chat::generic_chat::GenericChatSession;
pub use chat::helper::McpHandleResult;
pub use chat::openai_chat::OpenAiChatSession;
pub use default_session::DefaultSession;
pub use error::LLMError;
pub use instructor::{DefaultInstructor, Instructor, Qwen3Instructor};
pub use models::OpenAIModel;
pub use options::LLMOptions;
pub use step_buffer::{BufferedStep, CallId, StepBuffer};
