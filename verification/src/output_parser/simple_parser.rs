//! A parser that passes the model output on, trimmed by default.
use vstd::prelude::*;
use crate::output_parser::error::OutputParseError;
use crate::output_parser::output_parser::OutputParser;
use crate::text::{trim, trimmed};

verus! {

/// Passes the model output on as it is, or trimmed.
pub struct SimpleParser {
    trim: bool,
}

impl SimpleParser {
    /// Whether the output is trimmed.
    pub closed spec fn trims(&self) -> bool {
        self.trim
    }

    /// Sets whether the output is trimmed.
    pub fn trim(self, trim: bool) -> (r: Self)
        ensures
            r.trims() == trim,
    {
        let mut s = self;
        s.trim = trim;
        s
    }
}

impl Default for SimpleParser {
    /// A parser that trims.
    fn default() -> (r: Self)
        ensures
            r.trims(),
    {
        SimpleParser { trim: true }
    }
}

impl OutputParser for SimpleParser {
    open spec fn parsed(&self, text: Seq<char>) -> Option<Seq<char>> {
        if self.trims() {
            Some(trimmed(text))
        } else {
            Some(text)
        }
    }

    fn parse_from_text(&self, output: String) -> (r: Result<String, OutputParseError>) {
        if self.trim {
            Ok(trim(output.as_str()).to_owned())
        } else {
            Ok(output)
        }
    }
}

} // verus!
