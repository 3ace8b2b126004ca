//! Names of OpenAI models.
pub use crate::llm::models::OpenAIModel;
