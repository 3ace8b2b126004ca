//! The interface of output parsers.
use vstd::prelude::*;
use crate::output_parser::error::OutputParseError;

verus! {

/// Turns the text a model produced into the text a chain passes on.
pub trait OutputParser {
    /// What parsing `text` gives, when it succeeds.
    spec fn parsed(&self, text: Seq<char>) -> Option<Seq<char>>;

    /// Parses the model output.
    fn parse_from_text(&self, output: String) -> (r: Result<String, OutputParseError>)
        ensures
            r is Ok <==> self.parsed(output@) is Some,
            r matches Ok(s) ==> Some(s@) == self.parsed(output@),
    ;

    /// Parses the model output for a chain step whose input is `input`; on
    /// failure the input is handed back with the error.
    fn parse_from_text_and_input<I>(&self, input: I, text: String) -> (r: Result<
        String,
        (I, OutputParseError),
    >)
        ensures
            r is Ok <==> self.parsed(text@) is Some,
            r matches Ok(s) ==> Some(s@) == self.parsed(text@),
            r matches Err(e) ==> e.0 == input,
    {
        match self.parse_from_text(text) {
            Ok(s) => Ok(s),
            Err(e) => Err((input, e)),
        }
    }
}

} // verus!
