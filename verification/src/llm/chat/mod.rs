//! Chat completions: the model of their requests and responses, how prompts
//! are prepared and sessions keep their history, and the helpers that
//! aggregate streamed responses and pick a choice.
pub mod chat_history;
pub mod generic_chat;
pub mod helper;
pub mod messages;
pub mod openai_chat;
pub mod request;
pub mod response;
