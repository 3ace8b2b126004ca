//! Parsing of model output.
pub mod error;
pub mod output_parser;
pub mod parse_helper;
pub mod regex_parser;
pub mod simple_parser;

pub use error::OutputParseError;
pub use output_parser::OutputParser;
pub use parse_helper::extract_text::{
    extract_from_codeblock, extract_from_tag, extract_json, remove_thought, try_extract_from_codeblock,
    try_extract_from_tag,
};
pub use parse_helper::fix::{balance_parenthesis, fix_text, remove_multiline, remove_trailing_commas};
pub use parse_helper::flatten_final_answer::{flatten_final_answer, JsonValue};
pub use regex_parser::RegexParser;
pub use simple_parser::SimpleParser;
