//! Reading the output of the responses API.
use vstd::prelude::*;
use crate::llm::error::LLMError;
use crate::schemas::{LLMEvent, LLMOutput, ToolCall};

verus! {

/// A content part of an output message.
#[derive(Debug)]
pub enum Content {
    /// Generated text.
    OutputText(String),
    /// A refusal to answer.
    Refusal(String),
}

/// An item of the output of a response. A function call is given already
/// converted to a tool call, or with the error of its conversion.
#[derive(Debug)]
pub enum OutputContent {
    /// A message, with its content parts.
    Message(Vec<Content>),
    /// A function call.
    FunctionCall(Result<ToolCall, LLMError>),
    /// Any other item (reasoning, searches, ...).
    Other,
}

/// The state of the scan of the output: the last text and the tool calls so
/// far, or the error that stopped it.
pub enum OutputScan {
    Going { text: Option<String>, calls: Seq<ToolCall> },
    Failed(LLMError),
}

/// The scan of the output items `items`: a message's first part sets the text
/// (a refusal stops the scan), a function call is added to the tool calls (a
/// failed conversion stops the scan), other items are skipped.
pub open spec fn output_scan(items: Seq<OutputContent>) -> OutputScan
    decreases items.len(),
{
    if items.len() == 0 {
        OutputScan::Going { text: None, calls: Seq::empty() }
    } else {
        match output_scan(items.drop_last()) {
            OutputScan::Failed(e) => OutputScan::Failed(e),
            OutputScan::Going { text, calls } => match items.last() {
                OutputContent::Message(parts) => if parts@.len() == 0 {
                    OutputScan::Going { text, calls }
                } else {
                    match parts@[0] {
                        Content::OutputText(t) => OutputScan::Going { text: Some(t), calls },
                        Content::Refusal(r) => OutputScan::Failed(LLMError::Refused(r)),
                    }
                },
                OutputContent::FunctionCall(Ok(tc)) => OutputScan::Going { text, calls: calls.push(tc) },
                OutputContent::FunctionCall(Err(e)) => OutputScan::Failed(e),
                OutputContent::Other => OutputScan::Going { text, calls },
            },
        }
    }
}

/// The message of the error for output without text or tool calls.
pub open spec fn no_output_message() -> Seq<char> {
    "No text or tool call found in output"@
}

/// Builds the model output from the items of a response: the tool calls when
/// there are any, else the last text. A refusal or a failed function call is
/// an error, and so is output without text or tool calls.
pub fn construct_output(output: Vec<OutputContent>) -> (r: Result<LLMOutput, LLMError>)
    ensures
        match output_scan(output@) {
            OutputScan::Failed(e) => r == Err::<LLMOutput, LLMError>(e),
            OutputScan::Going { text, calls } => if calls.len() > 0 {
                r matches Ok(o) && o.thought is None && (o.event matches LLMEvent::ToolCall(v) && v@
                    == calls)
            } else if text is Some {
                r matches Ok(o) && o.thought is None && o.event == LLMEvent::Text(text->0)
            } else {
                r matches Err(LLMError::ContentNotFound(m)) && m@ == no_output_message()
            },
        },
{
    let ghost all = output@;
    let mut text: Option<String> = None;
    let mut tool_calls: Vec<ToolCall> = Vec::new();
    for item in it: output
        invariant
            it.seq() == all,
            output_scan(all.take(it.index() as int)) == (OutputScan::Going {
                text,
                calls: tool_calls@,
            }),
    {
        proof {
            assert(all.take(it.index() + 1).drop_last() =~= all.take(it.index() as int));
            assert(all.take(it.index() + 1).last() == item);
        }
        match item {
            OutputContent::Message(parts) => {
                let mut parts = parts;
                if parts.len() > 0 {
                    match parts.remove(0) {
                        Content::OutputText(t) => {
                            text = Some(t);
                        },
                        Content::Refusal(r) => {
                            proof {
                                lemma_scan_failure_persists(all, it.index() + 1);
                            }
                            return Err(LLMError::Refused(r));
                        },
                    }
                }
            },
            OutputContent::FunctionCall(call) => match call {
                Ok(tc) => {
                    tool_calls.push(tc);
                },
                Err(e) => {
                    proof {
                        lemma_scan_failure_persists(all, it.index() + 1);
                    }
                    return Err(e);
                },
            },
            OutputContent::Other => {},
        }
    }
    proof {
        assert(all.take(all.len() as int) =~= all);
    }
    let event = if tool_calls.len() > 0 {
        LLMEvent::ToolCall(tool_calls)
    } else {
        match text {
            Some(t) => LLMEvent::Text(t),
            None => {
                return Err(LLMError::ContentNotFound("No text or tool call found in output".to_owned()));
            },
        }
    };
    Ok(LLMOutput { thought: None, event })
}

/// A scan that failed stays failed, with the same error.
proof fn lemma_scan_failure_persists(items: Seq<OutputContent>, i: int)
    requires
        0 < i <= items.len(),
        output_scan(items.take(i)) is Failed,
    ensures
        output_scan(items) == output_scan(items.take(i)),
    decreases items.len() - i,
{
    if i < items.len() {
        assert(items.take(i + 1).drop_last() =~= items.take(i));
        lemma_scan_failure_persists(items, i + 1);
    } else {
        assert(items.take(i) =~= items);
    }
}

} // verus!
