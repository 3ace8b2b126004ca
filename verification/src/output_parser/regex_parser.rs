//! A parser that extracts the first capture group of a regular expression.
use vstd::prelude::*;
use crate::output_parser::error::OutputParseError;
use crate::output_parser::output_parser::OutputParser;
use crate::pattern::{first_captures, regex_first_captures};
use crate::text::{trim, trimmed};

verus! {

/// The message of the error for output the pattern does not match.
pub open spec fn no_match_message() -> Seq<char> {
    "No match found"@
}

/// The message of the error for a match without a first group.
pub open spec fn no_group_message() -> Seq<char> {
    "Failed to capture code block"@
}

/// The message of the error for a pattern that does not compile.
pub open spec fn invalid_pattern_message() -> Seq<char> {
    "Invalid pattern"@
}

/// What sanitizing `text` with `pattern` gives: the first capture group of the
/// first match, trimmed when `trim`.
pub open spec fn sanitized(pattern: Seq<char>, trim: bool, text: Seq<char>) -> Option<Seq<char>> {
    match regex_first_captures(pattern, text) {
        Some(Some(groups)) => if groups.len() > 1 && groups[1] is Some {
            let span = groups[1]->0;
            let g = text.subrange(span.0, span.1);
            Some(if trim { trimmed(g) } else { g })
        } else {
            None
        },
        _ => None,
    }
}

/// The message of the error of sanitizing `text` with `pattern`.
pub open spec fn sanitize_error_message(pattern: Seq<char>, text: Seq<char>) -> Seq<char> {
    match regex_first_captures(pattern, text) {
        None => invalid_pattern_message(),
        Some(None) => no_match_message(),
        Some(Some(_)) => no_group_message(),
    }
}

/// Extracts the first capture group of a regular expression from the output.
pub struct RegexParser {
    pattern: String,
    trim: bool,
}

/// A fenced code block; its content is the first group.
pub const CODE_BLOCK_PATTERN: &'static str = r"```(?:\w+)?\s*([\s\S]+?)\s*```";

impl RegexParser {
    /// The pattern of the parser.
    pub closed spec fn pattern(&self) -> Seq<char> {
        self.pattern@
    }

    /// Whether the extracted text is trimmed.
    pub closed spec fn trims(&self) -> bool {
        self.trim
    }

    /// A parser for the pattern `re`, trimming.
    pub fn new(re: &str) -> (r: Self)
        ensures
            r.pattern() == re@,
            r.trims(),
    {
        RegexParser { pattern: re.to_owned(), trim: true }
    }

    /// Sets whether the extracted text is trimmed.
    pub fn trim(self, trim: bool) -> (r: Self)
        ensures
            r.pattern() == self.pattern(),
            r.trims() == trim,
    {
        let mut s = self;
        s.trim = trim;
        s
    }

    /// A parser for the content of a fenced code block.
    pub fn code_block() -> (r: Self)
        ensures
            r.pattern() == CODE_BLOCK_PATTERN@,
            r.trims(),
    {
        Self::new(CODE_BLOCK_PATTERN)
    }

    /// The first capture group of the first match of the pattern in `output`,
    /// trimmed if so configured. It is an error when the pattern does not
    /// match, when the match has no first group, or when the pattern does not
    /// compile.
    pub fn sanitize<'a>(&self, output: &'a str) -> (r: Result<&'a str, OutputParseError>)
        ensures
            r is Ok <==> sanitized(self.pattern(), self.trims(), output@) is Some,
            r matches Ok(s) ==> Some(s@) == sanitized(self.pattern(), self.trims(), output@),
            r matches Err(e) ==> (e matches OutputParseError::Other(m) && m@
                == sanitize_error_message(self.pattern(), output@)),
    {
        let caps = match first_captures(self.pattern.as_str(), output) {
            None => {
                return Err(OutputParseError::Other("Invalid pattern".to_owned()));
            },
            Some(None) => {
                return Err(OutputParseError::Other("No match found".to_owned()));
            },
            Some(Some(groups)) => groups,
        };
        if caps.len() < 2 {
            return Err(OutputParseError::Other("Failed to capture code block".to_owned()));
        }
        let (start, end) = match caps[1] {
            Some(span) => span,
            None => {
                return Err(OutputParseError::Other("Failed to capture code block".to_owned()));
            },
        };
        proof {
            let g = crate::pattern::groups_view(caps@);
            assert(g[1] == Some((start as int, end as int)));
        }
        let captured = output.substring_char(start, end);
        if self.trim {
            Ok(trim(captured))
        } else {
            Ok(captured)
        }
    }
}

impl OutputParser for RegexParser {
    open spec fn parsed(&self, text: Seq<char>) -> Option<Seq<char>> {
        sanitized(self.pattern(), self.trims(), text)
    }

    fn parse_from_text(&self, output: String) -> (r: Result<String, OutputParseError>) {
        match self.sanitize(output.as_str()) {
            Ok(s) => Ok(s.to_owned()),
            Err(e) => Err(e),
        }
    }
}

} // verus!
