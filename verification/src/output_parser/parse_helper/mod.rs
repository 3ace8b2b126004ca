//! Helpers that repair and extract structured text from model output.
pub mod extract_text;
pub mod fix;
pub mod flatten_final_answer;
